//! Updating one project: the checks that come first, then its commands.

use vstd::prelude::*;

use crate::command;
use crate::command::{CommandSpec, OutcomeView, ProcessOutcome, ResultView};
use crate::path::FilePath;
use crate::plan::{ProjectTask, TaskView};
use crate::record::{RecordView, StatusView, StepRecord};
use crate::sequence;
use crate::sequence::{CommandRun, CommandRunView, StepView};
use crate::text;
use crate::work;
use crate::work::{WorkOutput, WorkView};

verus! {

/// A project that is being looked at.
#[derive(Debug)]
struct Candidate {
    name: &'static str,
    dir: FilePath,
    shown_dir: String,
    commands: Vec<CommandSpec>,
    dry_run: bool,
    verbose_log: bool,
    log: String,
}

/// A project that is being looked at, in terms of characters and bytes.
#[verifier::ext_equal]
pub struct CandidateView {
    pub name: Seq<char>,
    pub dir: Seq<u8>,
    /// The directory as text.
    pub shown_dir: Seq<char>,
    pub commands: Seq<Seq<Seq<char>>>,
    pub dry_run: bool,
    pub verbose_log: bool,
    pub log: Seq<char>,
}

impl View for Candidate {
    type V = CandidateView;

    closed spec fn view(&self) -> CandidateView {
        CandidateView {
            name: self.name@,
            dir: self.dir@,
            shown_dir: self.shown_dir@,
            commands: command::command_views(self.commands@),
            dry_run: self.dry_run,
            verbose_log: self.verbose_log,
            log: self.log@,
        }
    }
}

/// A project of which it is asked whether its directory is there.
#[derive(Debug)]
pub struct DirectoryCheck {
    candidate: Candidate,
}

/// A project of which it is asked whether it is a git repository.
#[derive(Debug)]
pub struct RepositoryCheck {
    candidate: Candidate,
}

/// A project of which it is asked how many local changes it has.
#[derive(Debug)]
pub struct ChangeCheck {
    candidate: Candidate,
}

impl View for DirectoryCheck {
    type V = CandidateView;

    closed spec fn view(&self) -> CandidateView {
        self.candidate@
    }
}

impl View for RepositoryCheck {
    type V = CandidateView;

    closed spec fn view(&self) -> CandidateView {
        self.candidate@
    }
}

impl View for ChangeCheck {
    type V = CandidateView;

    closed spec fn view(&self) -> CandidateView {
        self.candidate@
    }
}

/// Where a check leads.
#[derive(Debug)]
pub enum Passage<T> {
    /// On to what comes next.
    Open(T),
    /// To the end: the project is not updated.
    Closed(WorkOutput),
}

impl<T: View> View for Passage<T> {
    type V = PassageView<T::V>;

    open spec fn view(&self) -> PassageView<T::V> {
        match self {
            Passage::Open(next) => PassageView::Open(next@),
            Passage::Closed(output) => PassageView::Closed(output@),
        }
    }
}

/// A [`Passage`] in terms of views.
#[verifier::ext_equal]
pub enum PassageView<V> {
    Open(V),
    Closed(WorkView),
}

/// What the log says of a project before anything is known of it.
pub open spec fn opening(name: Seq<char>, shown_dir: Seq<char>) -> Seq<char> {
    "\n--- "@ + name + "\nDirectory: "@ + shown_dir + "\n"@
}

/// What git says of a directory: whether it is in a repository, or why it could
/// not be asked.
pub open spec fn repository_answer(outcome: OutcomeView) -> Result<bool, Seq<char>> {
    match outcome {
        OutcomeView::NotStarted(error) => Err("failed to start `git rev-parse`: "@ + error),
        OutcomeView::Exited { success, .. } => Ok(success),
    }
}

/// What the end of `git status` tells, where it printed `listed`: how many changes
/// there are, or why that is not known.
pub open spec fn status_answer(success: bool, code: Option<i32>, listed: Seq<char>) -> Result<
    nat,
    Seq<char>,
> {
    if success {
        Ok(text::line_count(listed))
    } else {
        Err("`git status --porcelain` exited with "@ + command::code_text(code))
    }
}

/// How many local changes git lists, or why it could not be asked.
pub open spec fn change_answer(outcome: OutcomeView) -> Result<nat, Seq<char>> {
    match outcome {
        OutcomeView::NotStarted(error) => Err("failed to start `git status`: "@ + error),
        OutcomeView::Exited { success, code, stdout, .. } => status_answer(
            success,
            code,
            text::lossy_text(stdout),
        ),
    }
}

impl CandidateView {
    /// The project, left out for `reason`.
    pub open spec fn skipped(self, reason: Seq<char>) -> WorkView {
        work::single(
            self.name,
            StatusView::Skipped(reason),
            self.log + "SKIP: "@ + reason + "\n"@,
        )
    }

    /// The project, failed for `reason`.
    pub open spec fn failed(self, reason: Seq<char>) -> WorkView {
        work::single(
            self.name,
            StatusView::Failure(reason),
            self.log + "FAIL: "@ + reason + "\n"@,
        )
    }

    /// Where the answer leads to whether the directory is there.
    pub open spec fn after_directory(self, is_dir: bool) -> PassageView<CandidateView> {
        if is_dir {
            PassageView::Open(self)
        } else {
            PassageView::Closed(self.skipped("missing directory: "@ + self.shown_dir))
        }
    }

    /// Where the answer leads to whether this is a git repository.
    pub open spec fn after_repository(self, answer: Result<bool, Seq<char>>) -> PassageView<
        CandidateView,
    > {
        match answer {
            Ok(true) => PassageView::Open(self),
            Ok(false) => PassageView::Closed(
                self.skipped("not a git repository: "@ + self.shown_dir),
            ),
            Err(reason) => PassageView::Closed(self.failed(reason)),
        }
    }

    /// Where the answer leads to how many local changes there are.
    pub open spec fn after_changes(self, answer: Result<nat, Seq<char>>) -> PassageView<
        CommandRunView,
    > {
        match answer {
            Ok(count) => if count == 0 {
                PassageView::Open(self.command_run())
            } else {
                PassageView::Closed(self.skipped(text::decimal_text(count) + " local change(s)"@))
            },
            Err(reason) => PassageView::Closed(self.failed(reason)),
        }
    }

    /// The commands of the project, of which none was run yet.
    pub open spec fn command_run(self) -> CommandRunView {
        CommandRunView {
            name: self.name,
            dir: Some(self.dir),
            remaining: self.commands,
            dry_run: self.dry_run,
            verbose_log: self.verbose_log,
            log: self.log,
        }
    }
}

/// The project `task` before anything is known of it, with its directory as text.
pub open spec fn candidate(
    task: TaskView,
    shown_dir: Seq<char>,
    dry_run: bool,
    verbose_log: bool,
) -> CandidateView {
    CandidateView {
        name: task.name,
        dir: task.dir,
        shown_dir,
        commands: task.commands,
        dry_run,
        verbose_log,
        log: opening(task.name, shown_dir),
    }
}

/// Starts on `project`, whose directory reads `shown_dir`.
pub fn examine_project(
    project: ProjectTask,
    shown_dir: String,
    dry_run: bool,
    verbose_log: bool,
) -> (check: DirectoryCheck)
    ensures
        check@ == candidate(project@, shown_dir@, dry_run, verbose_log),
{
    let log = "\n--- ".to_string().concat(project.name).concat("\nDirectory: ").concat(
        shown_dir.as_str(),
    ).concat("\n");
    DirectoryCheck {
        candidate: Candidate {
            name: project.name,
            dir: project.dir,
            shown_dir,
            commands: project.commands,
            dry_run,
            verbose_log,
            log,
        },
    }
}

/// Starts on `project`.
pub fn run_project(project: ProjectTask, dry_run: bool, verbose_log: bool) -> (check:
    DirectoryCheck)
    ensures
        check@ == candidate(project@, text::lossy_text(project@.dir), dry_run, verbose_log),
{
    let shown_dir = project.dir.display();
    examine_project(project, shown_dir, dry_run, verbose_log)
}

impl Candidate {
    fn skip(self, reason: &str) -> (output: WorkOutput)
        ensures
            output@ == self@.skipped(reason@),
    {
        let log = self.log.concat("SKIP: ").concat(reason).concat("\n");
        WorkOutput::of_step(StepRecord::skipped(self.name, reason), log)
    }

    fn fail(self, reason: &str) -> (output: WorkOutput)
        ensures
            output@ == self@.failed(reason@),
    {
        let log = self.log.concat("FAIL: ").concat(reason).concat("\n");
        WorkOutput::of_step(StepRecord::failure(self.name, reason), log)
    }
}

impl DirectoryCheck {
    /// The directory to look for.
    pub fn directory(&self) -> (dir: &FilePath)
        ensures
            dir@ == self@.dir,
    {
        &self.candidate.dir
    }

    /// Goes on, or not, when it is known whether the directory is there.
    pub fn answered(self, is_dir: bool) -> (passage: Passage<RepositoryCheck>)
        ensures
            passage@ == self@.after_directory(is_dir),
    {
        if is_dir {
            Passage::Open(RepositoryCheck { candidate: self.candidate })
        } else {
            let reason = "missing directory: ".to_string().concat(
                self.candidate.shown_dir.as_str(),
            );
            Passage::Closed(self.candidate.skip(reason.as_str()))
        }
    }
}

/// What git says of a directory, from the process that was asked.
pub fn is_git_repository(outcome: &ProcessOutcome) -> (answer: Result<bool, String>)
    ensures
        match answer {
            Ok(inside) => repository_answer(outcome@) == Ok::<bool, Seq<char>>(inside),
            Err(reason) => repository_answer(outcome@) == Err::<bool, Seq<char>>(reason@),
        },
{
    match outcome {
        ProcessOutcome::NotStarted(error) => Err(
            "failed to start `git rev-parse`: ".to_string().concat(error.as_str()),
        ),
        ProcessOutcome::Exited { success, .. } => Ok(*success),
    }
}

impl RepositoryCheck {
    /// The directory to ask about.
    pub fn directory(&self) -> (dir: &FilePath)
        ensures
            dir@ == self@.dir,
    {
        &self.candidate.dir
    }

    /// What to ask git in that directory.
    pub fn question(&self) -> (words: Vec<&'static str>)
        ensures
            text::str_views(words@) == seq!["rev-parse"@, "--is-inside-work-tree"@],
    {
        let words = vec!["rev-parse", "--is-inside-work-tree"];
        assert(text::str_views(words@) =~= seq!["rev-parse"@, "--is-inside-work-tree"@]);
        words
    }

    /// Goes on, or not, when git was asked.
    pub fn answered(self, outcome: &ProcessOutcome) -> (passage: Passage<ChangeCheck>)
        ensures
            passage@ == self@.after_repository(repository_answer(outcome@)),
    {
        match is_git_repository(outcome) {
            Ok(true) => Passage::Open(ChangeCheck { candidate: self.candidate }),
            Ok(false) => {
                let reason = "not a git repository: ".to_string().concat(
                    self.candidate.shown_dir.as_str(),
                );
                Passage::Closed(self.candidate.skip(reason.as_str()))
            },
            Err(reason) => Passage::Closed(self.candidate.fail(reason.as_str())),
        }
    }
}

/// What the end of `git status` tells, where it printed `listed`.
pub fn judge_status(success: bool, code: Option<i32>, listed: &str) -> (answer: Result<
    usize,
    String,
>)
    ensures
        match answer {
            Ok(count) => status_answer(success, code, listed@) == Ok::<nat, Seq<char>>(
                count as nat,
            ),
            Err(reason) => status_answer(success, code, listed@) == Err::<nat, Seq<char>>(reason@),
        },
{
    if success {
        Ok(text::count_lines(listed))
    } else {
        Err(
            "`git status --porcelain` exited with ".to_string().concat(
                command::describe_code(code).as_str(),
            ),
        )
    }
}

/// How many local changes git lists, from the process that was asked.
pub fn local_change_count(outcome: &ProcessOutcome) -> (answer: Result<usize, String>)
    ensures
        match answer {
            Ok(count) => change_answer(outcome@) == Ok::<nat, Seq<char>>(count as nat),
            Err(reason) => change_answer(outcome@) == Err::<nat, Seq<char>>(reason@),
        },
        answer == Ok::<usize, String>(0) <==> (outcome@ matches OutcomeView::Exited {
            success,
            stdout,
            ..
        } && success && stdout.len() == 0),
{
    match outcome {
        ProcessOutcome::NotStarted(error) => Err(
            "failed to start `git status`: ".to_string().concat(error.as_str()),
        ),
        ProcessOutcome::Exited { success, code, stdout, .. } => {
            let listed = text::decode_lossy(stdout.as_slice());
            proof {
                text::only_the_empty_text_has_no_lines(listed@);
            }
            judge_status(*success, *code, listed.as_str())
        },
    }
}

impl ChangeCheck {
    /// The directory to ask about.
    pub fn directory(&self) -> (dir: &FilePath)
        ensures
            dir@ == self@.dir,
    {
        &self.candidate.dir
    }

    /// What to ask git in that directory.
    pub fn question(&self) -> (words: Vec<&'static str>)
        ensures
            text::str_views(words@) == seq!["status"@, "--porcelain"@],
    {
        let words = vec!["status", "--porcelain"];
        assert(text::str_views(words@) =~= seq!["status"@, "--porcelain"@]);
        words
    }

    /// Goes on to the commands, or not, when the number of changes is known.
    pub fn counted(self, answer: Result<usize, String>) -> (passage: Passage<CommandRun>)
        ensures
            passage@ == self@.after_changes(
                match answer {
                    Ok(count) => Ok(count as nat),
                    Err(reason) => Err(reason@),
                },
            ),
    {
        match answer {
            Ok(count) => {
                if count == 0 {
                    let run = sequence::run_commands(
                        self.candidate.name,
                        Some(self.candidate.dir),
                        &self.candidate.commands,
                        self.candidate.dry_run,
                        self.candidate.verbose_log,
                        self.candidate.log,
                    );
                    assert(run@ =~= self@.command_run());
                    Passage::Open(run)
                } else {
                    let reason = text::decimal(count as u64).concat(" local change(s)");
                    Passage::Closed(self.candidate.skip(reason.as_str()))
                }
            },
            Err(reason) => Passage::Closed(self.candidate.fail(reason.as_str())),
        }
    }

    /// Goes on to the commands, or not, when git was asked.
    pub fn answered(self, outcome: &ProcessOutcome) -> (passage: Passage<CommandRun>)
        ensures
            passage@ == self@.after_changes(change_answer(outcome@)),
            passage@ is Open <==> (outcome@ matches OutcomeView::Exited { success, stdout, .. }
                && success && stdout.len() == 0),
    {
        self.counted(local_change_count(outcome))
    }
}

/// Where the three checks lead, one after the other.
pub open spec fn admission(
    candidate: CandidateView,
    is_dir: bool,
    repository: Result<bool, Seq<char>>,
    changes: Result<nat, Seq<char>>,
) -> PassageView<CommandRunView> {
    match candidate.after_directory(is_dir) {
        PassageView::Closed(output) => PassageView::Closed(output),
        PassageView::Open(found) => match found.after_repository(repository) {
            PassageView::Closed(output) => PassageView::Closed(output),
            PassageView::Open(versioned) => versioned.after_changes(changes),
        },
    }
}

/// A project is updated if and only if its directory is there, git knows it as a
/// repository, and it has no local change. Otherwise there is one record, which
/// says why not: a failure if and only if a question that was reached had no
/// answer.
pub proof fn only_clean_repositories_are_updated(
    candidate: CandidateView,
    is_dir: bool,
    repository: Result<bool, Seq<char>>,
    changes: Result<nat, Seq<char>>,
)
    ensures
        admission(candidate, is_dir, repository, changes) is Open <==> is_dir && repository
            == Ok::<bool, Seq<char>>(true) && changes == Ok::<nat, Seq<char>>(0),
        admission(candidate, is_dir, repository, changes) matches PassageView::Open(run) ==> run
            == candidate.command_run(),
        admission(candidate, is_dir, repository, changes) matches PassageView::Closed(output) ==> {
            &&& output.records.len() == 1
            &&& output.records[0].name == candidate.name
            &&& output.records[0].status is Failure <==> is_dir && (repository is Err || repository
                == Ok::<bool, Seq<char>>(true) && changes is Err)
            &&& !(output.records[0].status is Success)
        },
{
}

/// What a project leaves behind, if its commands come to `results`. There is
/// nothing yet while a command waits for a result that is not among them.
pub open spec fn project_outcome(
    candidate: CandidateView,
    is_dir: bool,
    repository: Result<bool, Seq<char>>,
    changes: Result<nat, Seq<char>>,
    results: Seq<ResultView>,
) -> Option<WorkView> {
    match admission(candidate, is_dir, repository, changes) {
        PassageView::Closed(output) => Some(output),
        PassageView::Open(run) => sequence::outcome(StepView::Continue(run), results),
    }
}

/// Whatever is found of it, a project leaves one record, under its own name, and
/// takes back nothing of its log.
pub proof fn a_project_leaves_one_record(
    candidate: CandidateView,
    is_dir: bool,
    repository: Result<bool, Seq<char>>,
    changes: Result<nat, Seq<char>>,
    results: Seq<ResultView>,
)
    ensures
        project_outcome(candidate, is_dir, repository, changes, results) matches Some(output)
            ==> {
            &&& output.records.len() == 1
            &&& output.records[0].name == candidate.name
            &&& candidate.log.is_prefix_of(output.log)
        },
{
    match admission(candidate, is_dir, repository, changes) {
        PassageView::Closed(output) => {
            assert(candidate.log.is_prefix_of(output.log));
        },
        PassageView::Open(run) => sequence::a_list_leaves_one_record(run, results),
    }
}

/// Of a `git status` that succeeded it does not matter what the changes are, nor with
/// which code it ended: there is none if and only if it printed nothing, and each
/// line that it printed is one.
pub proof fn each_line_of_git_status_is_a_change(
    code: Option<i32>,
    other_code: Option<i32>,
    listed: Seq<char>,
    line: Seq<char>,
)
    ensures
        status_answer(true, code, listed) is Ok,
        status_answer(true, code, listed)->Ok_0 == 0 <==> listed.len() == 0,
        (listed.len() == 0 || listed.last() == '\n') && !line.contains('\n') ==> {
            let before = status_answer(true, other_code, listed)->Ok_0;
            &&& status_answer(true, code, listed + line.push('\n')) == Ok::<nat, Seq<char>>(
                before + 1,
            )
            &&& line.len() > 0 ==> status_answer(true, code, listed + line) == Ok::<
                nat,
                Seq<char>,
            >(before + 1)
        },
{
    text::only_the_empty_text_has_no_lines(listed);
    if (listed.len() == 0 || listed.last() == '\n') && !line.contains('\n') {
        text::each_line_counts_once(listed, line);
    }
}

/// A `git status` that failed or did not start, and a question about the repository
/// that did not start, have no answer but the reason; how a question about the
/// repository ended is the answer, whatever was printed.
pub proof fn git_answers_or_says_why_not(outcome: OutcomeView)
    ensures
        match outcome {
            OutcomeView::NotStarted(error) => {
                &&& repository_answer(outcome) == Err::<bool, Seq<char>>(
                    "failed to start `git rev-parse`: "@ + error,
                )
                &&& change_answer(outcome) == Err::<nat, Seq<char>>(
                    "failed to start `git status`: "@ + error,
                )
            },
            OutcomeView::Exited { success, code, stdout, .. } => {
                &&& repository_answer(outcome) == Ok::<bool, Seq<char>>(success)
                &&& success ==> change_answer(outcome) == Ok::<nat, Seq<char>>(
                    text::line_count(text::lossy_text(stdout)),
                )
                &&& !success ==> change_answer(outcome) == Err::<nat, Seq<char>>(
                    "`git status --porcelain` exited with "@ + match code {
                        Some(n) => text::integer_text(n as int),
                        None => "signal"@,
                    },
                )
            },
        },
{
}

/// Whether `outcome` is that of a process that succeeded.
pub open spec fn succeeded(outcome: OutcomeView) -> bool {
    outcome matches OutcomeView::Exited { success, .. } && success
}

/// Whether git found the directory in a repository and listed no change there: both
/// questions succeeded, and the second one had nothing printed.
pub open spec fn git_calls_clean(asked: OutcomeView, status: OutcomeView) -> bool {
    &&& succeeded(asked)
    &&& succeeded(status)
    &&& text::lossy_text(status->stdout).len() == 0
}

/// A project is updated if and only if its directory is there, git succeeds in finding
/// a repository there, and `git status` succeeds and prints nothing at all. Then its
/// own commands are run in its own directory, none of them done yet, with the flags of
/// the run.
pub proof fn only_what_git_calls_clean_is_updated(
    task: TaskView,
    shown_dir: Seq<char>,
    dry_run: bool,
    verbose_log: bool,
    is_dir: bool,
    asked: OutcomeView,
    status: OutcomeView,
)
    ensures
        ({
            let start = candidate(task, shown_dir, dry_run, verbose_log);
            let end = admission(start, is_dir, repository_answer(asked), change_answer(status));
            &&& end is Open <==> is_dir && git_calls_clean(asked, status)
            &&& end matches PassageView::Open(run) ==> {
                &&& run.name == task.name
                &&& run.dir == Some(task.dir)
                &&& run.remaining == task.commands
                &&& run.dry_run == dry_run
                &&& run.verbose_log == verbose_log
                &&& run.log == "\n--- "@ + task.name + "\nDirectory: "@ + shown_dir + "\n"@
            }
        }),
{
    if succeeded(status) {
        text::only_the_empty_text_has_no_lines(text::lossy_text(status->stdout));
    }
}

/// A project that is not updated leaves one record, under its name, that tells why, and
/// its log tells the same. It is left out where the directory is missing, is no
/// repository, or has local changes, which are counted; it fails where git could not be
/// asked or could not list the changes.
pub proof fn a_project_that_is_not_updated_says_why(
    task: TaskView,
    shown_dir: Seq<char>,
    dry_run: bool,
    verbose_log: bool,
    is_dir: bool,
    asked: OutcomeView,
    status: OutcomeView,
    results: Seq<ResultView>,
)
    requires
        !(is_dir && git_calls_clean(asked, status)),
    ensures
        ({
            let start = candidate(task, shown_dir, dry_run, verbose_log);
            let opening = "\n--- "@ + task.name + "\nDirectory: "@ + shown_dir + "\n"@;
            let (skipped, reason) = if !is_dir {
                (true, "missing directory: "@ + shown_dir)
            } else if asked is NotStarted {
                (false, "failed to start `git rev-parse`: "@ + asked->NotStarted_0)
            } else if !succeeded(asked) {
                (true, "not a git repository: "@ + shown_dir)
            } else if status is NotStarted {
                (false, "failed to start `git status`: "@ + status->NotStarted_0)
            } else if !succeeded(status) {
                (
                    false,
                    "`git status --porcelain` exited with "@ + match status->code {
                        Some(n) => text::integer_text(n as int),
                        None => "signal"@,
                    },
                )
            } else {
                (
                    true,
                    text::decimal_text(text::line_count(text::lossy_text(status->stdout)))
                        + " local change(s)"@,
                )
            };
            project_outcome(
                start,
                is_dir,
                repository_answer(asked),
                change_answer(status),
                results,
            ) == Some(
                if skipped {
                    WorkView {
                        records: seq![
                            RecordView { name: task.name, status: StatusView::Skipped(reason) },
                        ],
                        log: opening + "SKIP: "@ + reason + "\n"@,
                    }
                } else {
                    WorkView {
                        records: seq![
                            RecordView { name: task.name, status: StatusView::Failure(reason) },
                        ],
                        log: opening + "FAIL: "@ + reason + "\n"@,
                    }
                },
            )
        }),
{
    if succeeded(status) {
        text::only_the_empty_text_has_no_lines(text::lossy_text(status->stdout));
    }
}

/// Where a project is updated and every command of it passes, it is a success, and its
/// log is its name and its directory, then for each command in its turn the command
/// and, if the run was asked for a verbose log, all that it printed, and then that all
/// is well.
pub proof fn an_updated_project_tells_all(
    task: TaskView,
    shown_dir: Seq<char>,
    verbose_log: bool,
    asked: OutcomeView,
    status: OutcomeView,
    outputs: Seq<Seq<char>>,
    pieces: Seq<Seq<char>>,
)
    requires
        git_calls_clean(asked, status),
        outputs.len() == task.commands.len(),
        pieces.len() == task.commands.len(),
        forall|i: int|
            0 <= i < pieces.len() ==> #[trigger] pieces[i] == seq!['>', ' ']
                + command::command_line(task.commands[i]) + seq!['\n'] + if verbose_log {
                outputs[i]
            } else {
                Seq::empty()
            },
    ensures
        project_outcome(
            candidate(task, shown_dir, false, verbose_log),
            true,
            repository_answer(asked),
            change_answer(status),
            sequence::passes(outputs),
        ) == Some(
            WorkView {
                records: seq![RecordView { name: task.name, status: StatusView::Success }],
                log: "\n--- "@ + task.name + "\nDirectory: "@ + shown_dir + "\n"@
                    + pieces.flatten() + seq!['O', 'K', '\n'],
            },
        ),
{
    only_what_git_calls_clean_is_updated(
        task,
        shown_dir,
        false,
        verbose_log,
        true,
        asked,
        status,
    );
    let start = candidate(task, shown_dir, false, verbose_log);
    let end = admission(start, true, repository_answer(asked), change_answer(status));
    sequence::a_passing_list_tells_all(end->Open_0, outputs, pieces);
}

/// Where a command of a project fails behind others that passed, the project fails for
/// its reason, and its log has all that the failing command printed, verbose or not.
pub proof fn a_failing_project_tells_all(
    task: TaskView,
    shown_dir: Seq<char>,
    verbose_log: bool,
    asked: OutcomeView,
    status: OutcomeView,
    outputs: Seq<Seq<char>>,
    reason: Seq<char>,
    output: Seq<char>,
    pieces: Seq<Seq<char>>,
)
    requires
        git_calls_clean(asked, status),
        outputs.len() < task.commands.len(),
        pieces.len() == outputs.len(),
        forall|i: int|
            0 <= i < pieces.len() ==> #[trigger] pieces[i] == seq!['>', ' ']
                + command::command_line(task.commands[i]) + seq!['\n'] + if verbose_log {
                outputs[i]
            } else {
                Seq::empty()
            },
    ensures
        project_outcome(
            candidate(task, shown_dir, false, verbose_log),
            true,
            repository_answer(asked),
            change_answer(status),
            sequence::passes(outputs).push(ResultView::Failed { reason, output }),
        ) == Some(
            WorkView {
                records: seq![
                    RecordView { name: task.name, status: StatusView::Failure(reason) },
                ],
                log: "\n--- "@ + task.name + "\nDirectory: "@ + shown_dir + "\n"@
                    + pieces.flatten() + seq!['>', ' '] + command::command_line(
                    task.commands[outputs.len() as int],
                ) + seq!['\n'] + output + seq!['F', 'A', 'I', 'L', ':', ' '] + reason + seq!['\n'],
            },
        ),
{
    only_what_git_calls_clean_is_updated(
        task,
        shown_dir,
        false,
        verbose_log,
        true,
        asked,
        status,
    );
    let start = candidate(task, shown_dir, false, verbose_log);
    let end = admission(start, true, repository_answer(asked), change_answer(status));
    sequence::a_failing_list_tells_all(end->Open_0, outputs, reason, output, pieces);
}

/// In a dry run a clean project is a success, whatever its commands would come to, and
/// its log lists them.
pub proof fn a_dry_project_tells_all(
    task: TaskView,
    shown_dir: Seq<char>,
    verbose_log: bool,
    asked: OutcomeView,
    status: OutcomeView,
    results: Seq<ResultView>,
    pieces: Seq<Seq<char>>,
)
    requires
        git_calls_clean(asked, status),
        pieces.len() == task.commands.len(),
        forall|i: int|
            0 <= i < pieces.len() ==> #[trigger] pieces[i] == seq!['>', ' ']
                + command::command_line(task.commands[i]) + seq!['\n'],
    ensures
        project_outcome(
            candidate(task, shown_dir, true, verbose_log),
            true,
            repository_answer(asked),
            change_answer(status),
            results,
        ) == Some(
            WorkView {
                records: seq![RecordView { name: task.name, status: StatusView::Success }],
                log: "\n--- "@ + task.name + "\nDirectory: "@ + shown_dir + "\n"@
                    + pieces.flatten() + seq!['O', 'K', '\n'],
            },
        ),
{
    only_what_git_calls_clean_is_updated(
        task,
        shown_dir,
        true,
        verbose_log,
        true,
        asked,
        status,
    );
    let start = candidate(task, shown_dir, true, verbose_log);
    let end = admission(start, true, repository_answer(asked), change_answer(status));
    sequence::a_dry_list_tells_all(end->Open_0, results, pieces);
}

} // verus!
