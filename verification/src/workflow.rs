//! The order of a run: first the tool chains, all at once, then the projects, a
//! few at a time.

use std::collections::VecDeque;
use vstd::prelude::*;

use crate::command;
use crate::command::ResultView;
use crate::join;
use crate::order;
use crate::path::FilePath;
use crate::plan;
use crate::plan::{GroupView, ProjectTask, TaskView, WorkGroup};
use crate::project;
use crate::project::DirectoryCheck;
use crate::record::{RecordView, StatusView, StepStatus};
use crate::sequence;
use crate::sequence::{CommandRun, CommandRunView, StepView};
use crate::style;
use crate::style::Tone;
use crate::text;
use crate::work::{WorkOutput, WorkView};

verus! {

/// The tool chain `group`, of which no command was run yet.
pub open spec fn group_run(group: GroupView, dry_run: bool, verbose_log: bool) -> CommandRunView {
    CommandRunView {
        name: group.name,
        dir: None,
        remaining: group.commands,
        dry_run,
        verbose_log,
        log: "\n===> "@ + group.name + "\n"@,
    }
}

/// Starts on the tool chain `group`.
pub fn run_work_group(group: &WorkGroup, dry_run: bool, verbose_log: bool) -> (run: CommandRun)
    ensures
        run@ == group_run(group@, dry_run, verbose_log),
{
    let log = "\n===> ".to_string().concat(group.name).concat("\n");
    sequence::run_commands(group.name, None, &group.commands, dry_run, verbose_log, log)
}

/// What the progress bar of `name` says at the end.
pub open spec fn final_message(name: Seq<char>, status: StatusView) -> Seq<char> {
    let word = match status {
        StatusView::Success => style::styled_text("OK"@, Tone::Success),
        StatusView::Failure(_) => style::styled_text("FAIL"@, Tone::Failure),
        StatusView::Skipped(_) => style::styled_text("SKIP"@, Tone::Skipped),
    };
    word + " "@ + name
}

/// What the progress bar of `name` says at the end.
pub fn finish_bar(name: &str, status: &StepStatus) -> (message: String)
    ensures
        message@ == final_message(name@, status@),
{
    let word = match status {
        StepStatus::Success => style::styled("OK", Tone::Success),
        StepStatus::Failure(_) => style::styled("FAIL", Tone::Failure),
        StepStatus::Skipped(_) => style::styled("SKIP", Tone::Skipped),
    };
    word.concat(" ").concat(name)
}

/// The projects that no thread works on yet, each with its place.
#[derive(Debug)]
pub struct ProjectQueue {
    waiting: VecDeque<(usize, ProjectTask)>,
    dry_run: bool,
    verbose_log: bool,
}

/// A [`ProjectQueue`] in terms of characters and bytes.
#[verifier::ext_equal]
pub struct QueueView {
    pub waiting: Seq<(usize, TaskView)>,
    pub dry_run: bool,
    pub verbose_log: bool,
}

/// The view of a project.
pub open spec fn task_view() -> spec_fn(ProjectTask) -> TaskView {
    |task: ProjectTask| task@
}

impl View for ProjectQueue {
    type V = QueueView;

    closed spec fn view(&self) -> QueueView {
        QueueView {
            waiting: order::relabelled(self.waiting@, task_view()),
            dry_run: self.dry_run,
            verbose_log: self.verbose_log,
        }
    }
}

impl QueueView {
    /// What waits when the first project is taken, if there is one.
    pub open spec fn rest(self) -> QueueView {
        QueueView {
            waiting: if self.waiting.len() > 0 {
                self.waiting.drop_first()
            } else {
                self.waiting
            },
            ..self
        }
    }

    /// What waits when someone asked for a project `n` times.
    pub open spec fn after(self, n: nat) -> QueueView
        decreases n,
    {
        if n == 0 {
            self
        } else {
            self.after((n - 1) as nat).rest()
        }
    }
}

impl ProjectQueue {
    /// All of `projects`, in their order.
    pub fn new(projects: Vec<ProjectTask>, dry_run: bool, verbose_log: bool) -> (queue: ProjectQueue)
        ensures
            queue@ == (QueueView {
                waiting: order::placed(plan::task_views(projects@)),
                dry_run,
                verbose_log,
            }),
    {
        let ghost all = order::placed(plan::task_views(projects@));
        let mut waiting: VecDeque<(usize, ProjectTask)> = VecDeque::new();
        let mut place: usize = 0;
        let count: usize = projects.len();
        assert(order::relabelled(waiting@, task_view()) =~= all.take(0));
        for task in it: projects
            invariant
                it.seq() == projects@,
                all == order::placed(plan::task_views(projects@)),
                count == projects@.len(),
                place == it.index(),
                order::relabelled(waiting@, task_view()) == all.take(place as int),
        {
            proof {
                order::lemma_relabelled_push(waiting@, (place, task), task_view());
            }
            waiting.push_back((place, task));
            assert(order::relabelled(waiting@, task_view()) =~= all.take(place + 1));
            place = place + 1;
        }
        assert(all.take(all.len() as int) =~= all);
        ProjectQueue { waiting, dry_run, verbose_log }
    }

    /// Takes the first project that waits, with its place, and starts on it.
    pub fn next_project(&mut self) -> (next: Option<(usize, DirectoryCheck)>)
        ensures
            next is Some <==> old(self)@.waiting.len() > 0,
            next matches Some((place, check)) ==> {
                let (first, task) = old(self)@.waiting[0];
                &&& place == first
                &&& check@ == project::candidate(
                    task,
                    text::lossy_text(task.dir),
                    old(self)@.dry_run,
                    old(self)@.verbose_log,
                )
            },
            final(self)@ == old(self)@.rest(),
    {
        match self.waiting.pop_front() {
            None => None,
            Some((place, task)) => {
                assert(self@.waiting =~= old(self)@.waiting.drop_first());
                Some((place, project::run_project(task, self.dry_run, self.verbose_log)))
            },
        }
    }
}

/// How many threads work on `projects` projects where `jobs` may.
pub open spec fn thread_count(jobs: nat, projects: nat) -> nat {
    if jobs <= projects {
        jobs
    } else {
        projects
    }
}

/// A run whose tool chains are being updated.
#[derive(Debug)]
pub struct ToolPhase {
    groups: Vec<WorkGroup>,
    projects: Vec<ProjectTask>,
    dry_run: bool,
    verbose_log: bool,
    jobs: usize,
}

/// A [`ToolPhase`] in terms of characters and bytes.
#[verifier::ext_equal]
pub struct ToolPhaseView {
    pub groups: Seq<GroupView>,
    pub projects: Seq<TaskView>,
    pub dry_run: bool,
    pub verbose_log: bool,
    pub jobs: nat,
}

impl View for ToolPhase {
    type V = ToolPhaseView;

    closed spec fn view(&self) -> ToolPhaseView {
        ToolPhaseView {
            groups: plan::group_views(self.groups@),
            projects: plan::task_views(self.projects@),
            dry_run: self.dry_run,
            verbose_log: self.verbose_log,
            jobs: self.jobs as nat,
        }
    }
}

/// A run whose tool chains were updated and whose projects were not. There is no
/// other way to a value of this type than the report on the tool chains.
#[derive(Debug)]
pub struct ProjectPhase {
    outputs: Vec<WorkOutput>,
    projects: Vec<ProjectTask>,
    dry_run: bool,
    verbose_log: bool,
    jobs: usize,
}

/// A [`ProjectPhase`] in terms of characters and bytes.
#[verifier::ext_equal]
pub struct ProjectPhaseView {
    /// The report on the tool chains.
    pub outputs: Seq<WorkView>,
    pub projects: Seq<TaskView>,
    pub dry_run: bool,
    pub verbose_log: bool,
    pub jobs: nat,
}

impl View for ProjectPhase {
    type V = ProjectPhaseView;

    closed spec fn view(&self) -> ProjectPhaseView {
        ProjectPhaseView {
            outputs: join::work_views(self.outputs@),
            projects: plan::task_views(self.projects@),
            dry_run: self.dry_run,
            verbose_log: self.verbose_log,
            jobs: self.jobs as nat,
        }
    }
}

/// A run that waits for the threads that work on the projects.
#[derive(Debug)]
pub struct ProjectJoin {
    outputs: Vec<WorkOutput>,
    workers: usize,
}

/// A [`ProjectJoin`] in terms of characters.
#[verifier::ext_equal]
pub struct ProjectJoinView {
    /// The report on the tool chains.
    pub outputs: Seq<WorkView>,
    /// How many threads there are.
    pub workers: nat,
}

impl View for ProjectJoin {
    type V = ProjectJoinView;

    closed spec fn view(&self) -> ProjectJoinView {
        ProjectJoinView {
            outputs: join::work_views(self.outputs@),
            workers: self.workers as nat,
        }
    }
}

impl ToolPhaseView {
    /// What comes when the tool chains are done, if their threads came back with
    /// `joined`.
    pub open spec fn after(self, joined: Seq<Option<(usize, WorkView)>>) -> ProjectPhaseView {
        ProjectPhaseView {
            outputs: join::group_report(joined),
            projects: self.projects,
            dry_run: self.dry_run,
            verbose_log: self.verbose_log,
            jobs: self.jobs,
        }
    }
}

impl ProjectPhaseView {
    /// The projects as they are handed out.
    pub open spec fn queue(self) -> QueueView {
        QueueView {
            waiting: order::placed(self.projects),
            dry_run: self.dry_run,
            verbose_log: self.verbose_log,
        }
    }
}

/// Starts on `tool_groups`. `projects` come later, at most `jobs` at a time.
pub fn run_workflows(
    tool_groups: Vec<WorkGroup>,
    projects: Vec<ProjectTask>,
    dry_run: bool,
    verbose_log: bool,
    jobs: usize,
) -> (phase: ToolPhase)
    ensures
        phase@ == (ToolPhaseView {
            groups: plan::group_views(tool_groups@),
            projects: plan::task_views(projects@),
            dry_run,
            verbose_log,
            jobs: jobs as nat,
        }),
{
    ToolPhase { groups: tool_groups, projects, dry_run, verbose_log, jobs }
}

/// Starts on everything that a run updates.
pub fn run_parallel(
    dry_run: bool,
    deep: bool,
    verbose_log: bool,
    jobs: usize,
    home: &FilePath,
) -> (phase: ToolPhase)
    ensures
        phase@ == (ToolPhaseView {
            groups: plan::tool_table(),
            projects: plan::project_table(home@, deep),
            dry_run,
            verbose_log,
            jobs: jobs as nat,
        }),
{
    run_workflows(
        plan::tool_groups(),
        plan::project_tasks(home, deep),
        dry_run,
        verbose_log,
        jobs,
    )
}

impl ToolPhase {
    /// The tool chains, in their order. Each gets a thread.
    pub fn groups(&self) -> (groups: &Vec<WorkGroup>)
        ensures
            plan::group_views(groups@) == self@.groups,
    {
        &self.groups
    }

    /// Starts on the tool chain at `place`, which has to be one.
    pub fn start(&self, place: usize) -> (run: CommandRun)
        requires
            place < self@.groups.len(),
        ensures
            run@ == group_run(self@.groups[place as int], self@.dry_run, self@.verbose_log),
    {
        run_work_group(&self.groups[place], self.dry_run, self.verbose_log)
    }

    /// Goes on to the projects when every thread is over. `joined` has what each
    /// came back with; there is one for each tool chain.
    pub fn joined(self, joined: Vec<Option<(usize, WorkOutput)>>) -> (phase: ProjectPhase)
        requires
            joined@.len() == self@.groups.len(),
        ensures
            phase@.outputs.len() == self@.groups.len(),
            phase@ == self@.after(join::group_views_joined(joined@)),
            phase@ == (ProjectPhaseView {
                outputs: join::group_report(join::group_views_joined(joined@)),
                projects: self@.projects,
                dry_run: self@.dry_run,
                verbose_log: self@.verbose_log,
                jobs: self@.jobs,
            }),
    {
        ProjectPhase {
            outputs: join::join_indexed_outputs(joined),
            projects: self.projects,
            dry_run: self.dry_run,
            verbose_log: self.verbose_log,
            jobs: self.jobs,
        }
    }
}

impl ProjectPhase {
    /// The projects, in their order.
    pub fn projects(&self) -> (projects: &Vec<ProjectTask>)
        ensures
            plan::task_views(projects@) == self@.projects,
    {
        &self.projects
    }

    /// How many threads are to work on the projects.
    pub fn worker_count(&self) -> (count: usize)
        ensures
            count == thread_count(self@.jobs, self@.projects.len()),
    {
        if self.jobs <= self.projects.len() {
            self.jobs
        } else {
            self.projects.len()
        }
    }

    /// Hands the projects out.
    pub fn hand_out(self) -> (handed: (ProjectQueue, ProjectJoin))
        ensures
            handed.0@ == self@.queue(),
            handed.0@ == (QueueView {
                waiting: order::placed(self@.projects),
                dry_run: self@.dry_run,
                verbose_log: self@.verbose_log,
            }),
            handed.1@ == (ProjectJoinView {
                outputs: self@.outputs,
                workers: thread_count(self@.jobs, self@.projects.len()),
            }),
    {
        let workers: usize = self.worker_count();
        let queue = ProjectQueue::new(self.projects, self.dry_run, self.verbose_log);
        (queue, ProjectJoin { outputs: self.outputs, workers })
    }
}

impl ProjectJoin {
    /// The report on everything, when every thread is over. `joined` has what each
    /// came back with.
    pub fn joined(self, joined: Vec<Option<Vec<(usize, WorkOutput)>>>) -> (outputs: Vec<WorkOutput>)
        requires
            joined@.len() == self@.workers,
        ensures
            join::work_views(outputs@) == self@.outputs.push(
                join::project_report(join::project_views_joined(joined@)),
            ),
    {
        let mut outputs = self.outputs;
        outputs.push(join::run_projects(joined));
        assert(join::work_views(outputs@) =~= self@.outputs.push(
            join::project_report(join::project_views_joined(joined@)),
        ));
        outputs
    }
}

/// The projects are handed out in their order, each once, until there is none: the
/// first to ask gets the first project, with its place, and so on, whoever asks.
pub proof fn the_queue_hands_out_every_project_once(
    projects: Seq<TaskView>,
    dry_run: bool,
    verbose_log: bool,
    n: nat,
)
    requires
        projects.len() <= usize::MAX,
    ensures
        ({
            let all = QueueView { waiting: order::placed(projects), dry_run, verbose_log };
            &&& n < projects.len() ==> all.after(n).waiting.len() > 0 && all.after(n).waiting[0]
                == (n as usize, projects[n as int])
            &&& n >= projects.len() ==> all.after(n).waiting.len() == 0
            &&& all.after(n).dry_run == dry_run && all.after(n).verbose_log == verbose_log
        }),
{
    let all = QueueView { waiting: order::placed(projects), dry_run, verbose_log };
    lemma_queue_after(all, n);
}

proof fn lemma_queue_after(queue: QueueView, n: nat)
    ensures
        queue.after(n) == (QueueView {
            waiting: if n <= queue.waiting.len() {
                queue.waiting.skip(n as int)
            } else {
                Seq::empty()
            },
            ..queue
        }),
    decreases n,
{
    if n == 0 {
        assert(queue.waiting.skip(0) =~= queue.waiting);
    } else {
        lemma_queue_after(queue, (n - 1) as nat);
        let before = queue.after((n - 1) as nat).waiting;
        if n <= queue.waiting.len() {
            assert(before.drop_first() =~= queue.waiting.skip(n as int));
        } else {
            assert(before =~= Seq::empty());
        }
    }
}

/// Where one project at least may be updated at a time, there is a thread as long
/// as there is a project; and there are never more threads than may be, or than
/// there are projects.
pub proof fn there_are_threads_where_there_is_work(jobs: nat, projects: nat)
    ensures
        jobs > 0 ==> (thread_count(jobs, projects) > 0 <==> projects > 0),
        thread_count(jobs, projects) <= jobs,
        thread_count(jobs, projects) <= projects,
        thread_count(jobs, projects) == jobs || thread_count(jobs, projects) == projects,
{
}

/// A tool chain starts with all of its commands, in their order, where the program runs,
/// with the flags of the run, and its log starts with its name.
pub proof fn a_tool_chain_starts_whole(group: GroupView, dry_run: bool, verbose_log: bool)
    ensures
        ({
            let run = group_run(group, dry_run, verbose_log);
            &&& run.name == group.name
            &&& run.dir is None
            &&& run.remaining == group.commands
            &&& run.dry_run == dry_run
            &&& run.verbose_log == verbose_log
            &&& run.log == "\n===> "@ + group.name + "\n"@
        }),
{
}

/// Where every command of a tool chain passes, its log is its name, then for each
/// command in its turn the command and, if the run was asked for a verbose log, all that
/// it printed, and then that all is well.
pub proof fn an_updated_tool_chain_tells_all(
    group: GroupView,
    verbose_log: bool,
    outputs: Seq<Seq<char>>,
    pieces: Seq<Seq<char>>,
)
    requires
        outputs.len() == group.commands.len(),
        pieces.len() == group.commands.len(),
        forall|i: int|
            0 <= i < pieces.len() ==> #[trigger] pieces[i] == seq!['>', ' ']
                + command::command_line(group.commands[i]) + seq!['\n'] + if verbose_log {
                outputs[i]
            } else {
                Seq::empty()
            },
    ensures
        sequence::outcome(
            StepView::Continue(group_run(group, false, verbose_log)),
            sequence::passes(outputs),
        ) == Some(
            WorkView {
                records: seq![RecordView { name: group.name, status: StatusView::Success }],
                log: "\n===> "@ + group.name + "\n"@ + pieces.flatten() + seq!['O', 'K', '\n'],
            },
        ),
{
    sequence::a_passing_list_tells_all(group_run(group, false, verbose_log), outputs, pieces);
}

/// In a dry run a tool chain is a success, whatever its commands would come to, and its
/// log lists them.
pub proof fn a_dry_tool_chain_tells_all(
    group: GroupView,
    verbose_log: bool,
    results: Seq<ResultView>,
    pieces: Seq<Seq<char>>,
)
    requires
        pieces.len() == group.commands.len(),
        forall|i: int|
            0 <= i < pieces.len() ==> #[trigger] pieces[i] == seq!['>', ' ']
                + command::command_line(group.commands[i]) + seq!['\n'],
    ensures
        sequence::outcome(
            StepView::Continue(group_run(group, true, verbose_log)),
            results,
        ) == Some(
            WorkView {
                records: seq![RecordView { name: group.name, status: StatusView::Success }],
                log: "\n===> "@ + group.name + "\n"@ + pieces.flatten() + seq!['O', 'K', '\n'],
            },
        ),
{
    sequence::a_dry_list_tells_all(group_run(group, true, verbose_log), results, pieces);
}

/// A progress bar ends with a word for how the work ended, in its colour, and with the
/// name of the work; the reason does not matter.
pub proof fn a_bar_ends_with_word_and_name(name: Seq<char>, reason: Seq<char>)
    ensures
        final_message(name, StatusView::Success) == style::styled_text("OK"@, Tone::Success)
            + seq![' '] + name,
        final_message(name, StatusView::Failure(reason)) == style::styled_text(
            "FAIL"@,
            Tone::Failure,
        ) + seq![' '] + name,
        final_message(name, StatusView::Skipped(reason)) == style::styled_text(
            "SKIP"@,
            Tone::Skipped,
        ) + seq![' '] + name,
{
    reveal_strlit(" ");
    assert(" "@ =~= seq![' ']);
}

} // verus!
