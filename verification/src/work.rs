//! What a piece of work leaves behind.

use vstd::prelude::*;

use crate::record;
use crate::record::{RecordView, StatusView, StepRecord};

verus! {

/// The records of a piece of work and the text that it adds to the log.
#[derive(Debug, Clone, PartialEq, Eq)]
pub struct WorkOutput {
    pub records: Vec<StepRecord>,
    pub log: String,
}

/// A [`WorkOutput`] in terms of characters.
#[verifier::ext_equal]
pub struct WorkView {
    pub records: Seq<RecordView>,
    pub log: Seq<char>,
}

impl View for WorkOutput {
    type V = WorkView;

    open spec fn view(&self) -> WorkView {
        WorkView { records: record::record_views(self.records@), log: self.log@ }
    }
}

/// The records of `outputs`, one output after the other.
pub open spec fn all_records(outputs: Seq<WorkView>) -> Seq<RecordView>
    decreases outputs.len(),
{
    if outputs.len() == 0 {
        Seq::empty()
    } else {
        all_records(outputs.drop_last()) + outputs.last().records
    }
}

/// The logs of `outputs`, one output after the other.
pub open spec fn all_logs(outputs: Seq<WorkView>) -> Seq<char>
    decreases outputs.len(),
{
    if outputs.len() == 0 {
        Seq::empty()
    } else {
        all_logs(outputs.drop_last()) + outputs.last().log
    }
}

/// `outputs` as one piece of work, with `heading` in front of the log.
pub open spec fn merged(heading: Seq<char>, outputs: Seq<WorkView>) -> WorkView {
    WorkView { records: all_records(outputs), log: heading + all_logs(outputs) }
}

/// The work of one step, with `log`.
pub open spec fn single(name: Seq<char>, status: StatusView, log: Seq<char>) -> WorkView {
    WorkView { records: seq![RecordView { name, status }], log }
}

/// What is left of the work of `name` where the thread that did it gave up.
pub open spec fn abandoned(name: Seq<char>, reason: Seq<char>) -> WorkView {
    single(
        name,
        StatusView::Failure(reason),
        "\n===> "@ + name + "\nFAIL: "@ + reason + "\n"@,
    )
}

/// One output more adds its records and its log at the end.
pub(crate) proof fn lemma_all_push(outputs: Seq<WorkView>, output: WorkView)
    ensures
        all_records(outputs.push(output)) == all_records(outputs) + output.records,
        all_logs(outputs.push(output)) == all_logs(outputs) + output.log,
{
    assert(outputs.push(output).drop_last() =~= outputs);
}

/// Where each output has one record, there are as many records as outputs, in the
/// same order.
pub proof fn one_record_for_each_output(outputs: Seq<WorkView>)
    requires
        forall|i: int| 0 <= i < outputs.len() ==> (#[trigger] outputs[i]).records.len() == 1,
    ensures
        all_records(outputs).len() == outputs.len(),
        forall|i: int|
            0 <= i < outputs.len() ==> #[trigger] all_records(outputs)[i] == outputs[i].records[0],
    decreases outputs.len(),
{
    if outputs.len() > 0 {
        let front = outputs.drop_last();
        assert forall|i: int| 0 <= i < front.len() implies (#[trigger] front[i]).records.len() == 1 by {
            assert(outputs[i].records.len() == 1);
        }
        one_record_for_each_output(front);
        assert(outputs[outputs.len() - 1].records.len() == 1);
        assert forall|i: int| 0 <= i < outputs.len() implies #[trigger] all_records(outputs)[i]
            == outputs[i].records[0] by {
            if i < front.len() {
                assert(all_records(front)[i] == front[i].records[0]);
            }
        }
    }
}

impl WorkOutput {
    /// The work of the one step that `record` is about.
    pub fn of_step(record: StepRecord, log: String) -> (output: WorkOutput)
        ensures
            output@ == single(record@.name, record@.status, log@),
    {
        let records = vec![record];
        assert(record::record_views(records@) =~= seq![record@]);
        WorkOutput { records, log }
    }
}

/// Reports the thread that did the work of `name` as failed.
pub fn panic_output(name: &str, reason: &str) -> (output: WorkOutput)
    ensures
        output@ == abandoned(name@, reason@),
{
    let log = "\n===> ".to_string().concat(name).concat("\nFAIL: ").concat(reason).concat("\n");
    WorkOutput::of_step(StepRecord::failure(name, reason), log)
}

/// Of several outputs nothing is lost: their records and their logs stand one behind
/// the other, behind the heading.
pub proof fn outputs_are_put_together(heading: Seq<char>, outputs: Seq<WorkView>)
    ensures
        merged(heading, outputs).records == outputs.map_values(|o: WorkView| o.records).flatten(),
        merged(heading, outputs).log == heading + outputs.map_values(
            |o: WorkView| o.log,
        ).flatten(),
        all_records(outputs) == outputs.map_values(|o: WorkView| o.records).flatten(),
        all_logs(outputs) == outputs.map_values(|o: WorkView| o.log).flatten(),
    decreases outputs.len(),
{
    let records = outputs.map_values(|o: WorkView| o.records);
    let logs = outputs.map_values(|o: WorkView| o.log);
    if outputs.len() > 0 {
        let front = outputs.drop_last();
        outputs_are_put_together(heading, front);
        let front_records = front.map_values(|o: WorkView| o.records);
        let front_logs = front.map_values(|o: WorkView| o.log);
        assert(records =~= front_records.push(outputs.last().records));
        assert(logs =~= front_logs.push(outputs.last().log));
        front_records.lemma_flatten_push(outputs.last().records);
        front_logs.lemma_flatten_push(outputs.last().log);
    } else {
        assert(records =~= Seq::empty());
        assert(logs =~= Seq::empty());
    }
}

/// Where a thread gave up on the work of `name`, there is one record, a failure for
/// the reason, and the log has both.
pub proof fn abandoned_work_is_a_failure(name: Seq<char>, reason: Seq<char>)
    ensures
        abandoned(name, reason).records == seq![
            RecordView { name, status: StatusView::Failure(reason) },
        ],
        abandoned(name, reason).log == "\n===> "@ + name + "\nFAIL: "@ + reason + "\n"@,
{
}

} // verus!
