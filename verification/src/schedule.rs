//! The threads that work on the projects, moment by moment.

use vstd::prelude::*;

use crate::order;
use crate::plan::TaskView;
use crate::workflow;
use crate::workflow::QueueView;

verus! {

/// What a thread that works on projects is about.
pub enum Worker {
    /// It is about to ask for a project.
    Idle,
    /// It works on the project at this place.
    Busy(usize),
    /// It is over.
    Gone,
}

/// What a thread that works on projects does next.
pub enum Turn {
    /// This thread asks for a project, and goes if there is none.
    Asks(int),
    /// This thread is done with its project.
    Finishes(int),
    /// This thread panics in the middle of its project.
    Panics(int),
}

/// The projects at one moment: those that wait, what each thread is about, and the
/// places of those that were started and of those that were finished, in this order.
#[verifier::ext_equal]
pub struct Shift {
    pub queue: QueueView,
    pub workers: Seq<Worker>,
    pub started: Seq<usize>,
    pub finished: Seq<usize>,
}

impl Shift {
    /// Whether `turn` can come next.
    pub open spec fn allows(self, turn: Turn) -> bool {
        match turn {
            Turn::Asks(worker) => 0 <= worker < self.workers.len() && self.workers[worker] is Idle,
            Turn::Finishes(worker) | Turn::Panics(worker) => 0 <= worker < self.workers.len()
                && self.workers[worker] is Busy,
        }
    }

    /// The moment behind `turn`.
    pub open spec fn after(self, turn: Turn) -> Shift {
        match turn {
            Turn::Asks(worker) => if self.queue.waiting.len() > 0 {
                let place = self.queue.waiting[0].0;
                Shift {
                    queue: self.queue.rest(),
                    workers: self.workers.update(worker, Worker::Busy(place)),
                    started: self.started.push(place),
                    ..self
                }
            } else {
                Shift { workers: self.workers.update(worker, Worker::Gone), ..self }
            },
            Turn::Finishes(worker) => Shift {
                workers: self.workers.update(worker, Worker::Idle),
                finished: self.finished.push(self.workers[worker]->Busy_0),
                ..self
            },
            Turn::Panics(worker) => Shift {
                workers: self.workers.update(worker, Worker::Gone),
                ..self
            },
        }
    }

    /// How many projects are in progress.
    pub open spec fn in_progress(self) -> nat {
        self.workers.filter(|worker: Worker| worker is Busy).len()
    }

    /// Whether every thread is over.
    pub open spec fn over(self) -> bool {
        forall|i: int| 0 <= i < self.workers.len() ==> #[trigger] self.workers[i] is Gone
    }
}

/// The moment at which `queue` is handed out to `workers` threads.
pub open spec fn beginning(queue: QueueView, workers: nat) -> Shift {
    Shift {
        queue,
        workers: Seq::new(workers, |i: int| Worker::Idle),
        started: Seq::empty(),
        finished: Seq::empty(),
    }
}

/// Whether `turns` can come one after the other, from `start` on.
pub open spec fn possible(start: Shift, turns: Seq<Turn>) -> bool
    decreases turns.len(),
{
    turns.len() > 0 ==> possible(start, turns.drop_last()) && reached(
        start,
        turns.drop_last(),
    ).allows(turns.last())
}

/// The moment behind `turns`, from `start` on.
pub open spec fn reached(start: Shift, turns: Seq<Turn>) -> Shift
    decreases turns.len(),
{
    if turns.len() == 0 {
        start
    } else {
        reached(start, turns.drop_last()).after(turns.last())
    }
}

/// Whether no thread panics in `turns`.
pub open spec fn calm(turns: Seq<Turn>) -> bool {
    forall|i: int| 0 <= i < turns.len() ==> !(#[trigger] turns[i] is Panics)
}

/// What holds at every moment: what was started is the front of the list, what waits
/// is the rest of it, and each project that was started and is not finished is in
/// the hands of one thread, unless that panicked.
spec fn orderly(shift: Shift, all: Seq<(usize, TaskView)>, calm: bool) -> bool {
    let begun = shift.started.len();
    &&& begun <= all.len()
    &&& shift.queue.waiting == all.skip(begun as int)
    &&& forall|i: int| 0 <= i < begun ==> #[trigger] shift.started[i] == i
    &&& forall|w: int|
        0 <= w < shift.workers.len() ==> (#[trigger] shift.workers[w] matches Worker::Busy(place)
            ==> place < begun && !shift.finished.contains(place))
    &&& forall|v: int, w: int|
        0 <= v < w < shift.workers.len() && shift.workers[v] is Busy && shift.workers[w] is Busy
            ==> #[trigger] shift.workers[v] != #[trigger] shift.workers[w]
    &&& forall|i: int| 0 <= i < shift.finished.len() ==> #[trigger] shift.finished[i] < begun
    &&& shift.finished.no_duplicates()
    &&& calm ==> forall|i: int|
        0 <= i < begun ==> shift.finished.contains(i as usize) || #[trigger] shift.workers.contains(
            Worker::Busy(i as usize),
        )
    &&& calm ==> forall|w: int|
        0 <= w < shift.workers.len() && #[trigger] shift.workers[w] is Gone ==> begun == all.len()
}

proof fn lemma_turn_is_orderly(
    shift: Shift,
    all: Seq<(usize, TaskView)>,
    turn: Turn,
    calm: bool,
)
    requires
        all.len() <= usize::MAX,
        forall|i: int| 0 <= i < all.len() ==> (#[trigger] all[i]).0 == i,
        orderly(shift, all, calm),
        shift.allows(turn),
        calm ==> !(turn is Panics),
    ensures
        orderly(shift.after(turn), all, calm),
{
    let next = shift.after(turn);
    let begun = shift.started.len() as int;
    match turn {
        Turn::Asks(worker) => {
            if shift.queue.waiting.len() > 0 {
                assert(shift.queue.waiting[0] == all[begun]);
                assert(next.queue.waiting =~= all.skip(begun + 1));
                assert forall|i: int| 0 <= i <= begun && calm implies next.finished.contains(
                    i as usize,
                ) || #[trigger] next.workers.contains(Worker::Busy(i as usize)) by {
                    if i == begun {
                        assert(next.workers[worker] == Worker::Busy(i as usize));
                    } else if !shift.finished.contains(i as usize) {
                        assert(shift.workers.contains(Worker::Busy(i as usize)));
                        let w = choose|w: int|
                            0 <= w < shift.workers.len() && shift.workers[w] == Worker::Busy(
                                i as usize,
                            );
                        assert(next.workers[w] == Worker::Busy(i as usize));
                    }
                }
                assert forall|w: int| 0 <= w < next.workers.len() implies (
                #[trigger] next.workers[w] matches Worker::Busy(place) ==> place < begun + 1
                    && !next.finished.contains(place)) by {
                    if w == worker && next.finished.contains(begun as usize) {
                        let i = choose|i: int|
                            0 <= i < shift.finished.len() && shift.finished[i] == begun as usize;
                        assert(shift.finished[i] < begun);
                    } else if w != worker {
                        assert(next.workers[w] == shift.workers[w]);
                    }
                }
            } else {
                assert forall|i: int| 0 <= i < begun && calm implies next.finished.contains(
                    i as usize,
                ) || #[trigger] next.workers.contains(Worker::Busy(i as usize)) by {
                    if !shift.finished.contains(i as usize) {
                        assert(shift.workers.contains(Worker::Busy(i as usize)));
                        let w = choose|w: int|
                            0 <= w < shift.workers.len() && shift.workers[w] == Worker::Busy(
                                i as usize,
                            );
                        assert(next.workers[w] == Worker::Busy(i as usize));
                    }
                }
            }
        },
        Turn::Finishes(worker) => {
            let place = shift.workers[worker]->Busy_0;
            assert(shift.workers[worker] == Worker::Busy(place));
            assert(next.finished.last() == place);
            assert forall|i: int| 0 <= i < shift.finished.len() implies next.finished[i]
                != place by {
                assert(shift.finished.contains(shift.finished[i]));
            }
            assert forall|w: int| 0 <= w < next.workers.len() implies (
            #[trigger] next.workers[w] matches Worker::Busy(held) ==> held < begun
                && !next.finished.contains(held)) by {
                if next.workers[w] is Busy {
                    assert(next.workers[w] == shift.workers[w]);
                    let held = next.workers[w]->Busy_0;
                    assert(held != place);
                    if next.finished.contains(held) {
                        let i = choose|i: int|
                            0 <= i < next.finished.len() && next.finished[i] == held;
                        assert(shift.finished[i] == held);
                    }
                }
            }
            assert forall|i: int| 0 <= i < begun && calm implies next.finished.contains(i as usize)
                || #[trigger] next.workers.contains(Worker::Busy(i as usize)) by {
                if i == place {
                    assert(next.finished[next.finished.len() - 1] == i as usize);
                } else if shift.finished.contains(i as usize) {
                    let j = choose|j: int|
                        0 <= j < shift.finished.len() && shift.finished[j] == i as usize;
                    assert(next.finished[j] == i as usize);
                } else {
                    assert(shift.workers.contains(Worker::Busy(i as usize)));
                    let w = choose|w: int|
                        0 <= w < shift.workers.len() && shift.workers[w] == Worker::Busy(
                            i as usize,
                        );
                    assert(next.workers[w] == Worker::Busy(i as usize));
                }
            }
        },
        Turn::Panics(_) => {},
    }
}

proof fn lemma_turns_are_orderly(start: Shift, all: Seq<(usize, TaskView)>, turns: Seq<Turn>)
    requires
        all.len() <= usize::MAX,
        forall|i: int| 0 <= i < all.len() ==> (#[trigger] all[i]).0 == i,
        orderly(start, all, true),
        orderly(start, all, false),
        possible(start, turns),
    ensures
        orderly(reached(start, turns), all, calm(turns)),
        reached(start, turns).workers.len() == start.workers.len(),
    decreases turns.len(),
{
    if turns.len() > 0 {
        let before = turns.drop_last();
        lemma_turns_are_orderly(start, all, before);
        if calm(turns) {
            assert forall|i: int| 0 <= i < before.len() implies !(#[trigger] before[i] is Panics) by {
                assert(!(turns[i] is Panics));
            }
            assert(!(turns[turns.len() - 1] is Panics));
        }
        assert(orderly(reached(start, before), all, calm(turns)));
        lemma_turn_is_orderly(reached(start, before), all, turns.last(), calm(turns));
    }
}

/// At every moment at most as many projects are in progress as may be at a time, and
/// no more than there are. They are started in their order, none is in the hands of
/// two threads or finished twice, and none is in progress when every thread is over.
/// By then all of them are finished, if one at least may be in progress and no thread
/// panicked.
pub proof fn few_projects_are_in_progress_at_a_time(
    projects: Seq<TaskView>,
    dry_run: bool,
    verbose_log: bool,
    jobs: nat,
    turns: Seq<Turn>,
)
    requires
        projects.len() <= usize::MAX,
        ({
            let queue = QueueView { waiting: order::placed(projects), dry_run, verbose_log };
            possible(beginning(queue, workflow::thread_count(jobs, projects.len())), turns)
        }),
    ensures
        ({
            let queue = QueueView { waiting: order::placed(projects), dry_run, verbose_log };
            let workers = workflow::thread_count(jobs, projects.len());
            let now = reached(beginning(queue, workers), turns);
            &&& now.workers.len() == workers
            &&& now.in_progress() <= jobs
            &&& now.in_progress() <= projects.len()
            &&& now.started.len() <= projects.len()
            &&& forall|i: int| 0 <= i < now.started.len() ==> #[trigger] now.started[i] == i
            &&& forall|v: int, w: int|
                0 <= v < w < workers && now.workers[v] is Busy && now.workers[w] is Busy
                    ==> #[trigger] now.workers[v] != #[trigger] now.workers[w]
            &&& now.finished.no_duplicates()
            &&& forall|i: int|
                0 <= i < now.finished.len() ==> #[trigger] now.finished[i] < now.started.len()
            &&& now.over() ==> now.in_progress() == 0
            &&& now.over() && jobs > 0 && calm(turns) ==> now.started.len() == projects.len()
                && forall|i: int|
                0 <= i < projects.len() ==> #[trigger] now.finished.contains(i as usize)
        }),
{
    let all = order::placed(projects);
    let queue = QueueView { waiting: all, dry_run, verbose_log };
    let workers = workflow::thread_count(jobs, projects.len());
    let start = beginning(queue, workers);
    let now = reached(start, turns);
    let busy = |worker: Worker| worker is Busy;
    assert(all.skip(0) =~= all);
    lemma_turns_are_orderly(start, all, turns);
    now.workers.lemma_filter_len(busy);
    if now.over() {
        order::lemma_none_chosen(now.workers, busy);
        if jobs > 0 && calm(turns) {
            if projects.len() > 0 {
                assert(now.workers[0] is Gone);
            }
            assert forall|i: int| 0 <= i < projects.len() implies #[trigger] now.finished.contains(
                i as usize,
            ) by {
                if now.workers.contains(Worker::Busy(i as usize)) {
                    let w = choose|w: int|
                        0 <= w < now.workers.len() && now.workers[w] == Worker::Busy(i as usize);
                    assert(now.workers[w] is Gone);
                }
            }
        }
    }
}

} // verus!
