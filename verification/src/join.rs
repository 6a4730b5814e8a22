//! Making one report of what several threads came back with.

use vstd::prelude::*;

use crate::order;
use crate::record;
use crate::record::{RecordView, StatusView, StepRecord};
use crate::work;
use crate::work::{WorkOutput, WorkView};

verus! {

/// The view of a piece of work.
pub open spec fn work_view() -> spec_fn(WorkOutput) -> WorkView {
    |output: WorkOutput| output@
}

/// The views of a list of outputs.
pub open spec fn work_views(outputs: Seq<WorkOutput>) -> Seq<WorkView> {
    outputs.map_values(work_view())
}

/// The outputs of `entries`, without their places.
pub open spec fn unplaced<T>(entries: Seq<(usize, T)>) -> Seq<T> {
    entries.map_values(|entry: (usize, T)| entry.1)
}

/// What a thread came back with, if it did.
pub open spec fn group_views_joined(joined: Seq<Option<(usize, WorkOutput)>>) -> Seq<
    Option<(usize, WorkView)>,
> {
    joined.map_values(
        |entry: Option<(usize, WorkOutput)>|
            match entry {
                Some((place, output)) => Some((place, output@)),
                None => None,
            },
    )
}

/// What the thread of a tool chain is reported with: what it came back with, or,
/// behind all others, that it gave up.
pub open spec fn group_entry(entry: Option<(usize, WorkView)>) -> (usize, WorkView) {
    match entry {
        Some(placed) => placed,
        None => (usize::MAX, work::abandoned("Parallel group"@, "worker panicked"@)),
    }
}

/// What the threads of the tool chains are reported with.
pub open spec fn group_entries(joined: Seq<Option<(usize, WorkView)>>) -> Seq<(usize, WorkView)> {
    joined.map_values(|entry: Option<(usize, WorkView)>| group_entry(entry))
}

/// The report on the tool chains, in their order.
pub open spec fn group_report(joined: Seq<Option<(usize, WorkView)>>) -> Seq<WorkView> {
    unplaced(order::sorted(group_entries(joined)))
}

fn without_places(entries: Vec<(usize, WorkOutput)>) -> (outputs: Vec<WorkOutput>)
    ensures
        outputs@ == unplaced(entries@),
{
    let mut outputs: Vec<WorkOutput> = Vec::new();
    for entry in it: entries
        invariant
            it.seq() == entries@,
            outputs@ == unplaced(entries@).take(it.index() as int),
    {
        outputs.push(entry.1);
        assert(outputs@ =~= unplaced(entries@).take(it.index() + 1));
    }
    assert(outputs@ =~= unplaced(entries@));
    outputs
}

/// Puts what the threads of the tool chains came back with in the order of their
/// places. There is nothing from a thread that panicked.
pub fn join_indexed_outputs(joined: Vec<Option<(usize, WorkOutput)>>) -> (outputs: Vec<WorkOutput>)
    ensures
        work_views(outputs@) == group_report(group_views_joined(joined@)),
        outputs@.len() == joined@.len(),
{
    let ghost entries = group_entries(group_views_joined(joined@));
    let mut placed: Vec<(usize, WorkOutput)> = Vec::new();
    for entry in it: joined
        invariant
            it.seq() == joined@,
            entries == group_entries(group_views_joined(joined@)),
            order::relabelled(placed@, work_view()) == entries.take(it.index() as int),
    {
        let output = match entry {
            Some(output) => output,
            None => (usize::MAX, work::panic_output("Parallel group", "worker panicked")),
        };
        proof {
            order::lemma_relabelled_push(placed@, output, work_view());
        }
        placed.push(output);
        assert(order::relabelled(placed@, work_view()) =~= entries.take(it.index() + 1));
    }
    assert(order::relabelled(placed@, work_view()) =~= entries);
    let ghost unsorted = placed@;
    let sorted = order::sort_by_place(placed);
    proof {
        order::lemma_order_of_labels(unsorted, sorted@, work_view());
        order::sorting_keeps_every_item(unsorted, sorted@);
        assert(entries.len() == order::relabelled(unsorted, work_view()).len());
        assert(work_views(unplaced(sorted@)) =~= unplaced(
            order::relabelled(sorted@, work_view()),
        ));
    }
    without_places(sorted)
}

/// What a thread that works on projects came back with, if it did.
pub open spec fn project_view_joined(entry: Option<Vec<(usize, WorkOutput)>>) -> Option<
    Seq<(usize, WorkView)>,
> {
    match entry {
        Some(outputs) => Some(order::relabelled(outputs@, work_view())),
        None => None,
    }
}

/// What the threads that work on projects came back with.
pub open spec fn project_views_joined(joined: Seq<Option<Vec<(usize, WorkOutput)>>>) -> Seq<
    Option<Seq<(usize, WorkView)>>,
> {
    joined.map_values(|entry: Option<Vec<(usize, WorkOutput)>>| project_view_joined(entry))
}

/// What a thread that works on projects is reported with: what it came back with,
/// or, behind all others, that it gave up.
pub open spec fn project_entry(entry: Option<Seq<(usize, WorkView)>>) -> Seq<(usize, WorkView)> {
    match entry {
        Some(outputs) => outputs,
        None => seq![(usize::MAX, work::abandoned("Project"@, "worker panicked"@))],
    }
}

/// What the threads that work on projects are reported with.
pub open spec fn project_entries(joined: Seq<Option<Seq<(usize, WorkView)>>>) -> Seq<
    (usize, WorkView),
>
    decreases joined.len(),
{
    if joined.len() == 0 {
        Seq::empty()
    } else {
        project_entries(joined.drop_last()) + project_entry(joined.last())
    }
}

/// The report on the projects, in their order.
pub open spec fn project_report(joined: Seq<Option<Seq<(usize, WorkView)>>>) -> WorkView {
    work::merged("\n===> Projects\n"@, unplaced(order::sorted(project_entries(joined))))
}

fn merge(heading: &str, outputs: Vec<WorkOutput>) -> (merged: WorkOutput)
    ensures
        merged@ == work::merged(heading@, work_views(outputs@)),
{
    let ghost views = work_views(outputs@);
    let mut records: Vec<StepRecord> = Vec::new();
    let mut log = heading.to_string();
    assert(record::record_views(records@) =~= work::all_records(views.take(0)));
    assert(log@ =~= heading@ + work::all_logs(views.take(0)));
    for output in it: outputs
        invariant
            it.seq() == outputs@,
            views == work_views(outputs@),
            record::record_views(records@) == work::all_records(views.take(it.index() as int)),
            log@ == heading@ + work::all_logs(views.take(it.index() as int)),
    {
        let mut more = output.records;
        proof {
            record::lemma_record_views_add(records@, more@);
            let longer = views.take(it.index() + 1);
            assert(longer.drop_last() =~= views.take(it.index() as int));
            assert(longer.last() == output@);
            assert(heading@ + work::all_logs(longer) =~= log@ + output.log@);
        }
        records.append(&mut more);
        log = log.concat(output.log.as_str());
    }
    assert(views.take(views.len() as int) =~= views);
    WorkOutput { records, log }
}

/// Merges what the threads that work on projects came back with into one output,
/// in the order of the projects. There is nothing from a thread that panicked.
pub fn run_projects(joined: Vec<Option<Vec<(usize, WorkOutput)>>>) -> (output: WorkOutput)
    ensures
        output@ == project_report(project_views_joined(joined@)),
{
    let ghost views = project_views_joined(joined@);
    let mut placed: Vec<(usize, WorkOutput)> = Vec::new();
    assert(order::relabelled(placed@, work_view()) =~= project_entries(views.take(0)));
    for entry in it: joined
        invariant
            it.seq() == joined@,
            views == project_views_joined(joined@),
            order::relabelled(placed@, work_view()) == project_entries(
                views.take(it.index() as int),
            ),
    {
        let mut more = match entry {
            Some(outputs) => outputs,
            None => vec![(usize::MAX, work::panic_output("Project", "worker panicked"))],
        };
        proof {
            let longer = views.take(it.index() + 1);
            assert(longer.drop_last() =~= views.take(it.index() as int));
            assert(longer.last() == project_view_joined(entry));
            assert(order::relabelled(more@, work_view()) =~= project_entry(longer.last()));
            order::lemma_relabelled_add(placed@, more@, work_view());
        }
        placed.append(&mut more);
    }
    assert(views.take(views.len() as int) =~= views);
    let ghost unsorted = placed@;
    let sorted = order::sort_by_place(placed);
    proof {
        order::lemma_order_of_labels(unsorted, sorted@, work_view());
        assert(work_views(unplaced(sorted@)) =~= unplaced(
            order::relabelled(sorted@, work_view()),
        ));
    }
    merge("\n===> Projects\n", without_places(sorted))
}

/// The tool chains are reported in their order, in whatever order their threads
/// came back.
pub proof fn tool_chains_are_reported_in_their_order(
    joined: Seq<Option<(usize, WorkView)>>,
    outputs: Seq<WorkView>,
)
    requires
        order::is_shuffle(group_entries(joined), outputs),
        outputs.len() <= usize::MAX,
    ensures
        group_report(joined) == outputs,
{
    order::sorting_undoes_any_shuffle(group_entries(joined), outputs);
    assert(unplaced(order::placed(outputs)) =~= outputs);
}

/// The projects are reported in their order, in whatever order and by whichever
/// threads they were done.
pub proof fn projects_are_reported_in_their_order(
    joined: Seq<Option<Seq<(usize, WorkView)>>>,
    outputs: Seq<WorkView>,
)
    requires
        order::is_shuffle(project_entries(joined), outputs),
        outputs.len() <= usize::MAX,
    ensures
        project_report(joined) == work::merged("\n===> Projects\n"@, outputs),
{
    order::sorting_undoes_any_shuffle(project_entries(joined), outputs);
    assert(unplaced(order::placed(outputs)) =~= outputs);
}

/// What tells whether the output at a place was the work of `worker`.
pub open spec fn done_by(schedule: Seq<nat>, worker: nat) -> spec_fn((usize, WorkView)) -> bool {
    |entry: (usize, WorkView)| schedule[entry.0 as int] == worker
}

/// What `workers` threads come back with if thread `schedule[i]` did what `outputs`
/// has at place `i`.
pub open spec fn shares(outputs: Seq<WorkView>, schedule: Seq<nat>, workers: nat) -> Seq<
    Option<Seq<(usize, WorkView)>>,
> {
    Seq::new(
        workers,
        |worker: int| Some(order::placed(outputs).filter(done_by(schedule, worker as nat))),
    )
}

/// Choosing some of the items of a list leaves none of them twice.
proof fn lemma_filter_distinct<A>(items: Seq<A>, wanted: spec_fn(A) -> bool)
    requires
        items.no_duplicates(),
    ensures
        items.filter(wanted).no_duplicates(),
    decreases items.len(),
{
    reveal(Seq::filter);
    if items.len() > 0 {
        let front = items.drop_last();
        lemma_filter_distinct(front, wanted);
        if wanted(items.last()) {
            let chosen = front.filter(wanted);
            assert forall|i: int| 0 <= i < chosen.len() implies chosen[i] != items.last() by {
                assert(chosen.contains(chosen[i]));
                front.lemma_filter_contains_rev(wanted, chosen[i]);
            }
        }
    }
}

/// The first threads come back with what they did, and nothing twice.
proof fn lemma_shares(outputs: Seq<WorkView>, schedule: Seq<nat>, workers: nat)
    requires
        outputs.len() <= usize::MAX,
    ensures
        project_entries(shares(outputs, schedule, workers)).no_duplicates(),
        forall|entry: (usize, WorkView)| #[trigger]
            project_entries(shares(outputs, schedule, workers)).contains(entry)
                <==> order::placed(outputs).contains(entry) && schedule[entry.0 as int] < workers,
    decreases workers,
{
    let all = order::placed(outputs);
    let entries = project_entries(shares(outputs, schedule, workers));
    if workers > 0 {
        let before = (workers - 1) as nat;
        let mine = all.filter(done_by(schedule, before));
        let others = project_entries(shares(outputs, schedule, before));
        lemma_shares(outputs, schedule, before);
        assert(shares(outputs, schedule, workers).drop_last() =~= shares(
            outputs,
            schedule,
            before,
        ));
        assert(entries == others + mine);
        assert forall|i: int, j: int| 0 <= i < j < all.len() implies all[i] != all[j] by {
            assert(all[i].0 == i && all[j].0 == j);
        }
        lemma_filter_distinct(all, done_by(schedule, before));
        assert forall|entry: (usize, WorkView)| #[trigger] mine.contains(entry) <==> all.contains(
            entry,
        ) && schedule[entry.0 as int] == before by {
            if mine.contains(entry) {
                all.lemma_filter_contains_rev(done_by(schedule, before), entry);
                let i = choose|i: int| 0 <= i < mine.len() && mine[i] == entry;
                all.lemma_filter_pred(done_by(schedule, before), i);
            }
            if all.contains(entry) && schedule[entry.0 as int] == before {
                let i = choose|i: int| 0 <= i < all.len() && all[i] == entry;
                all.lemma_filter_contains(done_by(schedule, before), i);
            }
        }
        assert forall|i: int, j: int| 0 <= i < others.len() && 0 <= j < mine.len() implies others[i]
            != mine[j] by {
            assert(others.contains(others[i]));
            assert(mine.contains(mine[j]));
        }
        assert forall|entry: (usize, WorkView)| #[trigger] entries.contains(entry)
            <==> others.contains(entry) || mine.contains(entry) by {
            if others.contains(entry) {
                let i = choose|i: int| 0 <= i < others.len() && others[i] == entry;
                assert(entries[i] == entry);
            }
            if mine.contains(entry) {
                let i = choose|i: int| 0 <= i < mine.len() && mine[i] == entry;
                assert(entries[others.len() + i] == entry);
            }
        }
    }
}

/// However the projects fall to the threads, the report is the same.
pub proof fn every_schedule_gives_one_report(
    outputs: Seq<WorkView>,
    schedule: Seq<nat>,
    workers: nat,
)
    requires
        outputs.len() <= usize::MAX,
        schedule.len() == outputs.len(),
        forall|i: int| 0 <= i < schedule.len() ==> #[trigger] schedule[i] < workers,
    ensures
        project_report(shares(outputs, schedule, workers)) == work::merged(
            "\n===> Projects\n"@,
            outputs,
        ),
{
    let all = order::placed(outputs);
    let entries = project_entries(shares(outputs, schedule, workers));
    lemma_shares(outputs, schedule, workers);
    assert forall|entry: (usize, WorkView)| all.contains(entry) implies #[trigger] entries.contains(
        entry,
    ) by {
        let i = choose|i: int| 0 <= i < all.len() && all[i] == entry;
        assert(all[i].0 == i);
        assert(schedule[i] < workers);
    }
    assert(entries.to_set() =~= all.to_set());
    projects_are_reported_in_their_order(shares(outputs, schedule, workers), outputs);
}

/// What the threads did that came back, in their order.
pub open spec fn survivors(joined: Seq<Option<(usize, WorkView)>>) -> Seq<(usize, WorkView)>
    decreases joined.len(),
{
    if joined.len() == 0 {
        Seq::empty()
    } else {
        match joined.last() {
            Some(entry) => survivors(joined.drop_last()).push(entry),
            None => survivors(joined.drop_last()),
        }
    }
}

/// How many threads did not come back.
pub open spec fn lost(joined: Seq<Option<(usize, WorkView)>>) -> nat
    decreases joined.len(),
{
    if joined.len() == 0 {
        0
    } else {
        match joined.last() {
            Some(_) => lost(joined.drop_last()),
            None => lost(joined.drop_last()) + 1,
        }
    }
}

/// `count` threads that did not come back, behind all others.
spec fn losses(count: nat) -> Seq<(usize, WorkView)> {
    Seq::new(count, |i: int| group_entry(None))
}

proof fn lemma_lost_threads(joined: Seq<Option<(usize, WorkView)>>)
    requires
        joined.len() <= usize::MAX,
        forall|i: int|
            0 <= i < joined.len() ==> (#[trigger] joined[i] matches Some((place, _)) ==> place
                == i),
    ensures
        order::sorted_by_place(group_entries(joined), survivors(joined) + losses(lost(joined))),
        forall|i: int|
            0 <= i < survivors(joined).len() ==> (#[trigger] survivors(joined)[i]).0
                < joined.len(),
    decreases joined.len(),
{
    let target = survivors(joined) + losses(lost(joined));
    if joined.len() == 0 {
        assert(target =~= group_entries(joined));
    } else {
        let before = joined.drop_last();
        lemma_lost_threads(before);
        let front = survivors(before);
        let back = losses(lost(before));
        let next = group_entry(joined.last());
        assert(joined.last() == joined[joined.len() - 1]);
        assert(group_entries(joined) =~= group_entries(before) + seq![next]);
        if joined.last() is Some {
            assert(target =~= front + (seq![next] + back));
        } else {
            assert(target =~= front + (back + seq![next]));
        }
        assert forall|i: int, j: int| 0 <= i <= j < target.len() implies target[i].0
            <= target[j].0 by {
            let sorted = front + back;
            if j < front.len() {
                assert(sorted[i].0 <= sorted[j].0);
            }
            if i < front.len() {
                assert(front[i].0 < before.len());
            }
        }
        assert forall|key: usize| order::at_place(target, key) == #[trigger] order::at_place(
            group_entries(joined),
            key,
        ) by {
            let here = order::stands_at::<WorkView>(key);
            Seq::filter_distributes_over_add(group_entries(before), seq![next], here);
            Seq::filter_distributes_over_add(front, back, here);
            Seq::filter_distributes_over_add(front, seq![next] + back, here);
            Seq::filter_distributes_over_add(front, back + seq![next], here);
            Seq::filter_distributes_over_add(seq![next], back, here);
            Seq::filter_distributes_over_add(back, seq![next], here);
            assert(order::at_place(group_entries(before), key) == order::at_place(
                front + back,
                key,
            ));
            if next.0 != key {
                order::lemma_none_chosen(seq![next], here);
            } else if joined.last() is Some {
                order::lemma_none_chosen(back, here);
            }
            assert(order::at_place(target, key) =~= order::at_place(group_entries(joined), key));
        }
    }
}

/// A thread that does not come back takes no report with it but its own: those of
/// the others stand in their order, and one failure for each lost thread stands
/// behind them.
pub proof fn lost_threads_are_reported_last(joined: Seq<Option<(usize, WorkView)>>)
    requires
        joined.len() <= usize::MAX,
        forall|i: int|
            0 <= i < joined.len() ==> (#[trigger] joined[i] matches Some((place, _)) ==> place
                == i),
    ensures
        group_report(joined) == unplaced(survivors(joined)) + Seq::new(
            lost(joined),
            |i: int| work::abandoned("Parallel group"@, "worker panicked"@),
        ),
        survivors(joined).len() + lost(joined) == joined.len(),
{
    let target = survivors(joined) + losses(lost(joined));
    lemma_lost_threads(joined);
    order::sorting_has_one_result(group_entries(joined), target);
    lemma_each_thread_counts(joined);
    assert(group_report(joined) =~= unplaced(survivors(joined)) + Seq::new(
        lost(joined),
        |i: int| work::abandoned("Parallel group"@, "worker panicked"@),
    ));
}

proof fn lemma_each_thread_counts(joined: Seq<Option<(usize, WorkView)>>)
    ensures
        survivors(joined).len() + lost(joined) == joined.len(),
    decreases joined.len(),
{
    if joined.len() > 0 {
        lemma_each_thread_counts(joined.drop_last());
    }
}

/// What one more thread comes back with is reported besides all the rest; where it does
/// not come back, one failure is, at a place behind every project.
pub proof fn every_thread_is_reported(
    joined: Seq<Option<Seq<(usize, WorkView)>>>,
    entry: Option<Seq<(usize, WorkView)>>,
)
    ensures
        project_entries(Seq::empty()) == Seq::<(usize, WorkView)>::empty(),
        project_entries(joined.push(entry)) == project_entries(joined) + match entry {
            Some(outputs) => outputs,
            None => seq![
                (
                    usize::MAX,
                    WorkView {
                        records: seq![
                            RecordView {
                                name: "Project"@,
                                status: StatusView::Failure("worker panicked"@),
                            },
                        ],
                        log: "\n===> "@ + "Project"@ + "\nFAIL: "@ + "worker panicked"@ + "\n"@,
                    },
                ),
            ],
        },
{
    assert(joined.push(entry).drop_last() =~= joined);
}

/// The report on the projects has a heading, and then the records and the logs of all
/// that is reported, one behind the other, in the order of the places.
pub proof fn the_report_on_projects_loses_nothing(
    joined: Seq<Option<Seq<(usize, WorkView)>>>,
    sorted: Seq<(usize, WorkView)>,
)
    requires
        order::sorted_by_place(project_entries(joined), sorted),
    ensures
        project_report(joined).records == sorted.map_values(
            |entry: (usize, WorkView)| entry.1.records,
        ).flatten(),
        project_report(joined).log == "\n===> Projects\n"@ + sorted.map_values(
            |entry: (usize, WorkView)| entry.1.log,
        ).flatten(),
{
    order::sorting_has_one_result(project_entries(joined), sorted);
    let outputs = unplaced(sorted);
    work::outputs_are_put_together("\n===> Projects\n"@, outputs);
    assert(outputs.map_values(|o: WorkView| o.records) =~= sorted.map_values(
        |entry: (usize, WorkView)| entry.1.records,
    ));
    assert(outputs.map_values(|o: WorkView| o.log) =~= sorted.map_values(
        |entry: (usize, WorkView)| entry.1.log,
    ));
}

/// A list of outputs is told output by output, with all records and the whole log.
pub proof fn every_output_of_a_list_counts(outputs: Seq<WorkOutput>, i: int)
    requires
        0 <= i < outputs.len(),
    ensures
        work_views(outputs).len() == outputs.len(),
        work_views(outputs)[i].records == record::record_views(outputs[i].records@),
        work_views(outputs)[i].log == outputs[i].log@,
{
}

} // verus!
