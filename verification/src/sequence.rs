//! Running a list of commands: which one comes next, and when to stop.

use std::collections::VecDeque;
use vstd::prelude::*;

use crate::command;
use crate::command::{CommandFailure, CommandSpec, ProcessOutcome, ResultView};
use crate::path;
use crate::path::FilePath;
use crate::record::{RecordView, StatusView, StepRecord};
use crate::work;
use crate::work::{WorkOutput, WorkView};

verus! {

/// A list of commands of which some may have been run.
#[derive(Debug)]
pub struct CommandRun {
    name: &'static str,
    dir: Option<FilePath>,
    remaining: VecDeque<CommandSpec>,
    dry_run: bool,
    verbose_log: bool,
    log: String,
}

/// A [`CommandRun`] in terms of characters.
#[verifier::ext_equal]
pub struct CommandRunView {
    pub name: Seq<char>,
    /// The directory to run the commands in. Where there is none, it is the one
    /// that the program itself runs in.
    pub dir: Option<Seq<u8>>,
    /// The words of the commands that were not run yet.
    pub remaining: Seq<Seq<Seq<char>>>,
    pub dry_run: bool,
    pub verbose_log: bool,
    pub log: Seq<char>,
}

impl View for CommandRun {
    type V = CommandRunView;

    closed spec fn view(&self) -> CommandRunView {
        CommandRunView {
            name: self.name@,
            dir: path::optional_path(self.dir),
            remaining: command::command_views(self.remaining@),
            dry_run: self.dry_run,
            verbose_log: self.verbose_log,
            log: self.log@,
        }
    }
}

/// A command whose outcome a list of commands waits for.
#[derive(Debug)]
pub struct PendingCommand {
    command: CommandSpec,
    rest: CommandRun,
}

/// A [`PendingCommand`] in terms of characters.
#[verifier::ext_equal]
pub struct PendingView {
    pub command: Seq<Seq<char>>,
    pub rest: CommandRunView,
}

impl View for PendingCommand {
    type V = PendingView;

    closed spec fn view(&self) -> PendingView {
        PendingView { command: self.command@, rest: self.rest@ }
    }
}

/// What there is to do for a list of commands.
#[derive(Debug)]
pub enum CommandStep {
    /// One command is over; go on with the rest.
    Continue(CommandRun),
    /// Run a command.
    Execute(PendingCommand),
    /// Nothing: the list is over.
    Finished(WorkOutput),
}

/// A [`CommandStep`] in terms of characters.
#[verifier::ext_equal]
pub enum StepView {
    Continue(CommandRunView),
    Execute(PendingView),
    Finished(WorkView),
}

impl View for CommandStep {
    type V = StepView;

    open spec fn view(&self) -> StepView {
        match self {
            CommandStep::Continue(run) => StepView::Continue(run@),
            CommandStep::Execute(pending) => StepView::Execute(pending@),
            CommandStep::Finished(output) => StepView::Finished(output@),
        }
    }
}

/// The line of the log that says that the command `words` comes next.
pub open spec fn announcement(words: Seq<Seq<char>>) -> Seq<char> {
    "> "@ + command::command_line(words) + "\n"@
}

/// What the log keeps of a command's result. What a command printed that passed
/// is kept in a verbose log only.
pub open spec fn result_text(result: ResultView, verbose_log: bool) -> Seq<char> {
    match result {
        ResultView::Passed { output } => if verbose_log {
            output
        } else {
            Seq::empty()
        },
        ResultView::Failed { reason, output } => output + "FAIL: "@ + reason + "\n"@,
    }
}

impl CommandRunView {
    /// The list without its first command, which the log names.
    pub open spec fn announced(self) -> CommandRunView {
        CommandRunView {
            remaining: self.remaining.drop_first(),
            log: self.log + announcement(self.remaining[0]),
            ..self
        }
    }

    /// What there is to do next.
    pub open spec fn next(self) -> StepView {
        if self.remaining.len() == 0 {
            StepView::Finished(work::single(self.name, StatusView::Success, self.log + "OK\n"@))
        } else if self.dry_run {
            StepView::Continue(self.announced())
        } else {
            StepView::Execute(PendingView { command: self.remaining[0], rest: self.announced() })
        }
    }
}

impl PendingView {
    /// What there is to do when the command came to `result`.
    pub open spec fn completed(self, result: ResultView) -> StepView {
        let log = self.rest.log + result_text(result, self.rest.verbose_log);
        match result {
            ResultView::Passed { .. } => StepView::Continue(CommandRunView { log, ..self.rest }),
            ResultView::Failed { reason, .. } => StepView::Finished(
                work::single(self.rest.name, StatusView::Failure(reason), log),
            ),
        }
    }
}

/// Starts on `commands`, which are to be run in `dir`, with `log` for what was
/// written before.
pub fn run_commands(
    name: &'static str,
    dir: Option<FilePath>,
    commands: &Vec<CommandSpec>,
    dry_run: bool,
    verbose_log: bool,
    log: String,
) -> (run: CommandRun)
    ensures
        run@ == (CommandRunView {
            name: name@,
            dir: path::optional_path(dir),
            remaining: command::command_views(commands@),
            dry_run,
            verbose_log,
            log: log@,
        }),
{
    let mut remaining: VecDeque<CommandSpec> = VecDeque::new();
    for i in 0..commands.len()
        invariant
            remaining@ == commands@.take(i as int),
    {
        remaining.push_back(commands[i]);
        assert(remaining@ =~= commands@.take(i + 1));
    }
    assert(commands@.take(commands@.len() as int) =~= commands@);
    CommandRun { name, dir, remaining, dry_run, verbose_log, log }
}

impl CommandRun {
    /// The command that comes next, if there is one.
    pub fn next_command(&self) -> (command: Option<CommandSpec>)
        ensures
            command is Some <==> self@.remaining.len() > 0,
            command matches Some(c) ==> c@ == self@.remaining[0],
    {
        if self.remaining.len() > 0 {
            Some(self.remaining[0])
        } else {
            None
        }
    }

    /// What there is to do next.
    pub fn next(self) -> (step: CommandStep)
        ensures
            step@ == self@.next(),
    {
        let mut run = self;
        match run.remaining.pop_front() {
            None => {
                let log = run.log.concat("OK\n");
                CommandStep::Finished(WorkOutput::of_step(StepRecord::success(run.name), log))
            },
            Some(command) => {
                let line = "> ".to_string().concat(command.display().as_str()).concat("\n");
                run.log = run.log.concat(line.as_str());
                assert(run@ =~= self@.announced());
                if run.dry_run {
                    CommandStep::Continue(run)
                } else {
                    CommandStep::Execute(PendingCommand { command, rest: run })
                }
            },
        }
    }
}

impl PendingCommand {
    /// The command to run.
    pub fn command(&self) -> (command: CommandSpec)
        ensures
            command@ == self@.command,
    {
        self.command
    }

    /// The directory to run it in, if it is not the program's own.
    pub fn directory(&self) -> (dir: Option<&FilePath>)
        ensures
            dir is Some <==> self@.rest.dir is Some,
            dir matches Some(d) ==> self@.rest.dir == Some(d@),
    {
        match &self.rest.dir {
            Some(dir) => Some(dir),
            None => None,
        }
    }

    /// What there is to do when the command came to `result`.
    pub fn settled(self, result: Result<String, CommandFailure>) -> (step: CommandStep)
        ensures
            step@ == self@.completed(command::result_view(result)),
    {
        let mut run = self.rest;
        match result {
            Ok(output) => {
                if run.verbose_log {
                    run.log = run.log.concat(output.as_str());
                }
                let step = CommandStep::Continue(run);
                assert(step@ =~= self@.completed(command::result_view(result)));
                step
            },
            Err(failure) => {
                let log = run.log.concat(failure.output.as_str()).concat("FAIL: ").concat(
                    failure.reason.as_str(),
                ).concat("\n");
                let record = StepRecord::failure(run.name, failure.reason.as_str());
                let step = CommandStep::Finished(WorkOutput::of_step(record, log));
                assert(step@ =~= self@.completed(command::result_view(result)));
                step
            },
        }
    }

    /// What there is to do when the process of the command ended.
    pub fn completed(self, outcome: &ProcessOutcome) -> (step: CommandStep)
        ensures
            step@ == self@.completed(command::command_result(self@.command, outcome@)),
    {
        let result = command::run_command(&self.command, outcome);
        self.settled(result)
    }
}

/// How much is left to do from `step` on.
pub open spec fn ahead(step: StepView) -> nat {
    match step {
        StepView::Continue(run) => 2 * run.remaining.len() + 1,
        StepView::Execute(pending) => 2 * pending.rest.remaining.len() + 2,
        StepView::Finished(_) => 0,
    }
}

/// What a list of commands leaves behind if the commands that are run from `step`
/// on come to `results`, in this order. There is nothing yet while a command
/// waits for a result that is not among them.
pub open spec fn outcome(step: StepView, results: Seq<ResultView>) -> Option<WorkView>
    decreases ahead(step),
{
    match step {
        StepView::Finished(output) => Some(output),
        StepView::Continue(run) => outcome(run.next(), results),
        StepView::Execute(pending) => if results.len() == 0 {
            None
        } else {
            outcome(pending.completed(results[0]), results.drop_first())
        },
    }
}

/// The lines that name `commands`, in their order.
pub open spec fn listing(commands: Seq<Seq<Seq<char>>>) -> Seq<char>
    decreases commands.len(),
{
    if commands.len() == 0 {
        Seq::empty()
    } else {
        announcement(commands[0]) + listing(commands.drop_first())
    }
}

/// What the log says of the commands that came to `results`, in their order.
pub open spec fn transcript(
    commands: Seq<Seq<Seq<char>>>,
    results: Seq<ResultView>,
    verbose_log: bool,
) -> Seq<char>
    decreases results.len(),
{
    if results.len() == 0 {
        Seq::empty()
    } else {
        announcement(commands[0]) + result_text(results[0], verbose_log) + transcript(
            commands.drop_first(),
            results.drop_first(),
            verbose_log,
        )
    }
}

/// Whether none of `results` is a failure.
pub open spec fn all_passed(results: Seq<ResultView>) -> bool {
    forall|i: int| 0 <= i < results.len() ==> #[trigger] results[i] is Passed
}

/// A dry run executes nothing: whatever the commands would come to, it lists every
/// one of them and reports success.
pub proof fn dry_run_only_lists(run: CommandRunView, results: Seq<ResultView>)
    requires
        run.dry_run,
    ensures
        outcome(StepView::Continue(run), results) == Some(
            work::single(
                run.name,
                StatusView::Success,
                run.log + listing(run.remaining) + "OK\n"@,
            ),
        ),
    decreases run.remaining.len(),
{
    assert(outcome(StepView::Continue(run), results) == outcome(run.next(), results));
    if run.remaining.len() == 0 {
        assert(run.log + listing(run.remaining) =~= run.log);
    } else {
        dry_run_only_lists(run.announced(), results);
        assert(run.log + listing(run.remaining) =~= run.announced().log + listing(
            run.announced().remaining,
        ));
    }
}

/// While every command passes, the next one is run, until there is none. Fewer
/// results than commands leave the list unfinished; one for each command makes
/// it a success.
pub proof fn commands_run_while_they_pass(run: CommandRunView, results: Seq<ResultView>)
    requires
        !run.dry_run,
        results.len() <= run.remaining.len(),
        all_passed(results),
    ensures
        outcome(StepView::Continue(run), results) == if results.len() < run.remaining.len() {
            None
        } else {
            Some(
                work::single(
                    run.name,
                    StatusView::Success,
                    run.log + transcript(run.remaining, results, run.verbose_log) + "OK\n"@,
                ),
            )
        },
    decreases results.len(),
{
    let log = run.log + transcript(run.remaining, results, run.verbose_log);
    if results.len() == 0 {
        assert(log =~= run.log);
        assert(outcome(run.next(), results) == outcome(StepView::Continue(run), results));
    } else {
        let pending = PendingView { command: run.remaining[0], rest: run.announced() };
        let rest = pending.completed(results[0])->Continue_0;
        assert(results[0] is Passed);
        assert(all_passed(results.drop_first()));
        commands_run_while_they_pass(rest, results.drop_first());
        assert(log =~= rest.log + transcript(
            rest.remaining,
            results.drop_first(),
            run.verbose_log,
        ));
        assert(outcome(run.next(), results) == outcome(
            pending.completed(results[0]),
            results.drop_first(),
        ));
    }
}

/// The first command that fails ends the list: it is over with the result of that
/// command, no command behind it is run, and its reason is the reason of the list.
pub proof fn first_failure_ends_the_list(run: CommandRunView, results: Seq<ResultView>)
    requires
        !run.dry_run,
        0 < results.len() <= run.remaining.len(),
        all_passed(results.drop_last()),
        results.last() is Failed,
    ensures
        outcome(StepView::Continue(run), results) == Some(
            work::single(
                run.name,
                StatusView::Failure(results.last()->Failed_reason),
                run.log + transcript(run.remaining, results, run.verbose_log),
            ),
        ),
    decreases results.len(),
{
    let log = run.log + transcript(run.remaining, results, run.verbose_log);
    let pending = PendingView { command: run.remaining[0], rest: run.announced() };
    let after = results.drop_first();
    assert(outcome(run.next(), results) == outcome(pending.completed(results[0]), after));
    if results.len() == 1 {
        assert(transcript(run.remaining.drop_first(), after, run.verbose_log) =~= Seq::empty());
        assert(log =~= pending.rest.log + result_text(results[0], run.verbose_log));
    } else {
        assert(results.drop_last()[0] is Passed);
        let rest = pending.completed(results[0])->Continue_0;
        assert(after.drop_last() =~= results.drop_last().drop_first());
        assert forall|i: int| 0 <= i < after.drop_last().len() implies #[trigger] after.drop_last()[i] is Passed by {
            assert(results.drop_last()[i + 1] is Passed);
        }
        first_failure_ends_the_list(rest, after);
        assert(log =~= rest.log + transcript(rest.remaining, after, run.verbose_log));
    }
}

/// What a list of commands works towards from `step` on: its name and what it
/// wrote so far.
pub open spec fn progress(step: StepView) -> (Seq<char>, Seq<char>) {
    match step {
        StepView::Continue(run) => (run.name, run.log),
        StepView::Execute(pending) => (pending.rest.name, pending.rest.log),
        StepView::Finished(output) => (output.records[0].name, output.log),
    }
}

/// Whatever its commands come to, a list of commands leaves one record, under its
/// own name, which is a success or a failure, and takes back nothing of its log.
pub proof fn a_list_leaves_one_record(run: CommandRunView, results: Seq<ResultView>)
    ensures
        outcome(StepView::Continue(run), results) matches Some(output) ==> {
            &&& output.records.len() == 1
            &&& output.records[0].name == run.name
            &&& !(output.records[0].status is Skipped)
            &&& run.log.is_prefix_of(output.log)
        },
{
    lemma_one_record(StepView::Continue(run), results);
}

proof fn lemma_one_record(step: StepView, results: Seq<ResultView>)
    requires
        step matches StepView::Finished(output) ==> output.records.len() == 1
            && !(output.records[0].status is Skipped),
    ensures
        outcome(step, results) matches Some(output) ==> {
            &&& output.records.len() == 1
            &&& output.records[0].name == progress(step).0
            &&& !(output.records[0].status is Skipped)
            &&& progress(step).1.is_prefix_of(output.log)
        },
    decreases ahead(step),
{
    match step {
        StepView::Finished(_) => {},
        StepView::Continue(run) => {
            lemma_one_record(run.next(), results);
            assert(outcome(step, results) == outcome(run.next(), results));
            assert(run.log.is_prefix_of(progress(run.next()).1));
        },
        StepView::Execute(pending) => if results.len() > 0 {
            let next = pending.completed(results[0]);
            lemma_one_record(next, results.drop_first());
            assert(pending.rest.log.is_prefix_of(progress(next).1));
        },
    }
}

/// Whether `a` and `b` differ in what passing commands printed at most.
pub open spec fn same_but_for_passing_output(a: Seq<ResultView>, b: Seq<ResultView>) -> bool {
    &&& a.len() == b.len()
    &&& forall|i: int|
        0 <= i < a.len() ==> #[trigger] a[i] == #[trigger] b[i] || a[i] is Passed && b[i] is Passed
}

/// A log that is not verbose has nothing of what passing commands printed: whatever
/// it was, the outcome is the same.
pub proof fn a_default_log_omits_passing_output(
    run: CommandRunView,
    a: Seq<ResultView>,
    b: Seq<ResultView>,
)
    requires
        !run.verbose_log,
        same_but_for_passing_output(a, b),
    ensures
        outcome(StepView::Continue(run), a) == outcome(StepView::Continue(run), b),
{
    lemma_passing_output_is_omitted(StepView::Continue(run), a, b);
}

proof fn lemma_passing_output_is_omitted(step: StepView, a: Seq<ResultView>, b: Seq<ResultView>)
    requires
        step matches StepView::Continue(run) ==> !run.verbose_log,
        step matches StepView::Execute(pending) ==> !pending.rest.verbose_log,
        same_but_for_passing_output(a, b),
    ensures
        outcome(step, a) == outcome(step, b),
    decreases ahead(step),
{
    match step {
        StepView::Finished(_) => {},
        StepView::Continue(run) => {
            lemma_passing_output_is_omitted(run.next(), a, b);
            assert(outcome(step, a) == outcome(run.next(), a));
            assert(outcome(step, b) == outcome(run.next(), b));
        },
        StepView::Execute(pending) => if a.len() > 0 {
            let next = pending.completed(a[0]);
            assert(a[0] == b[0] || a[0] is Passed && b[0] is Passed);
            assert(next == pending.completed(b[0]));
            assert forall|i: int| 0 <= i < a.len() - 1 implies #[trigger] a.drop_first()[i]
                == #[trigger] b.drop_first()[i] || a.drop_first()[i] is Passed
                && b.drop_first()[i] is Passed by {
                assert(a[i + 1] == b[i + 1] || a[i + 1] is Passed && b[i + 1] is Passed);
            }
            lemma_passing_output_is_omitted(next, a.drop_first(), b.drop_first());
        },
    }
}

/// Any log, verbose or not, ends with what a failing command printed and with the
/// reason of the failure.
pub proof fn every_log_keeps_failing_output(run: CommandRunView, results: Seq<ResultView>)
    requires
        !run.dry_run,
        0 < results.len() <= run.remaining.len(),
        all_passed(results.drop_last()),
        results.last() is Failed,
    ensures
        ({
            let last = results.last();
            let tail = last->Failed_output + "FAIL: "@ + last->Failed_reason + "\n"@;
            outcome(StepView::Continue(run), results) matches Some(output) && tail.is_suffix_of(
                output.log,
            )
        }),
{
    first_failure_ends_the_list(run, results);
    let tail = result_text(results.last(), run.verbose_log);
    let told = transcript(run.remaining, results, run.verbose_log);
    lemma_transcript_ends(run.remaining, results, run.verbose_log);
    let log = run.log + told;
    assert(log.subrange(log.len() - tail.len(), log.len() as int) =~= told.subrange(
        told.len() - tail.len(),
        told.len() as int,
    ));
}

/// A transcript ends with the last result.
proof fn lemma_transcript_ends(
    commands: Seq<Seq<Seq<char>>>,
    results: Seq<ResultView>,
    verbose_log: bool,
)
    requires
        results.len() > 0,
    ensures
        result_text(results.last(), verbose_log).is_suffix_of(
            transcript(commands, results, verbose_log),
        ),
    decreases results.len(),
{
    let told = transcript(commands, results, verbose_log);
    let tail = result_text(results.last(), verbose_log);
    let rest = transcript(commands.drop_first(), results.drop_first(), verbose_log);
    if results.len() == 1 {
        assert(rest =~= Seq::<char>::empty());
    } else {
        lemma_transcript_ends(commands.drop_first(), results.drop_first(), verbose_log);
        assert(told.subrange(told.len() - tail.len(), told.len() as int) =~= rest.subrange(
            rest.len() - tail.len(),
            rest.len() as int,
        ));
    }
}

/// Commands are executed one by one, in their order, in the directory of the list, and
/// none in a dry run. What is left to do stays the same but for the command that was
/// announced, and so do the name, the directory and the flags of the list.
pub proof fn each_command_has_its_turn(run: CommandRunView, output: Seq<char>)
    requires
        run.remaining.len() > 0,
    ensures
        !run.dry_run ==> {
            &&& run.next() matches StepView::Execute(pending)
            &&& pending.command == run.remaining[0]
            &&& pending.rest.dir == run.dir
            &&& pending.completed(ResultView::Passed { output }) matches StepView::Continue(rest)
            &&& rest.remaining == run.remaining.drop_first()
            &&& rest.name == run.name && rest.dir == run.dir
            &&& rest.dry_run == run.dry_run && rest.verbose_log == run.verbose_log
        },
        run.dry_run ==> {
            &&& run.next() matches StepView::Continue(rest)
            &&& rest.remaining == run.remaining.drop_first()
            &&& rest.name == run.name && rest.dir == run.dir
            &&& rest.dry_run && rest.verbose_log == run.verbose_log
        },
{
}

/// The results of commands that passed and printed `outputs`.
pub open spec fn passes(outputs: Seq<Seq<char>>) -> Seq<ResultView> {
    Seq::new(outputs.len(), |i: int| ResultView::Passed { output: outputs[i] })
}

proof fn lemma_transcript_in_pieces(
    commands: Seq<Seq<Seq<char>>>,
    results: Seq<ResultView>,
    verbose_log: bool,
    pieces: Seq<Seq<char>>,
)
    requires
        results.len() == pieces.len(),
        results.len() <= commands.len(),
        forall|i: int|
            0 <= i < pieces.len() ==> #[trigger] pieces[i] == announcement(commands[i])
                + result_text(results[i], verbose_log),
    ensures
        transcript(commands, results, verbose_log) == pieces.flatten(),
    decreases results.len(),
{
    if results.len() > 0 {
        let rest = pieces.drop_first();
        assert forall|i: int| 0 <= i < rest.len() implies #[trigger] rest[i] == announcement(
            commands.drop_first()[i],
        ) + result_text(results.drop_first()[i], verbose_log) by {
            assert(rest[i] == pieces[i + 1]);
        }
        lemma_transcript_in_pieces(
            commands.drop_first(),
            results.drop_first(),
            verbose_log,
            rest,
        );
        assert(transcript(commands, results, verbose_log) =~= pieces.flatten());
    }
}

/// Where every command passes, the list is a success under its name, and its log is
/// what it was, then for each command in its turn the command and, in a verbose log
/// alone, all that it printed, and then that all is well.
pub proof fn a_passing_list_tells_all(
    run: CommandRunView,
    outputs: Seq<Seq<char>>,
    pieces: Seq<Seq<char>>,
)
    requires
        !run.dry_run,
        outputs.len() == run.remaining.len(),
        pieces.len() == run.remaining.len(),
        forall|i: int|
            0 <= i < pieces.len() ==> #[trigger] pieces[i] == seq!['>', ' ']
                + command::command_line(run.remaining[i]) + seq!['\n'] + if run.verbose_log {
                outputs[i]
            } else {
                Seq::empty()
            },
    ensures
        outcome(StepView::Continue(run), passes(outputs)) == Some(
            WorkView {
                records: seq![RecordView { name: run.name, status: StatusView::Success }],
                log: run.log + pieces.flatten() + seq!['O', 'K', '\n'],
            },
        ),
{
    let results = passes(outputs);
    reveal_strlit("> ");
    reveal_strlit("\n");
    reveal_strlit("OK\n");
    assert("> "@ =~= seq!['>', ' ']);
    assert("\n"@ =~= seq!['\n']);
    assert("OK\n"@ =~= seq!['O', 'K', '\n']);
    lemma_transcript_in_pieces(run.remaining, results, run.verbose_log, pieces);
    commands_run_while_they_pass(run, results);
}

/// Where a command fails behind others that passed, the list fails for its reason, and
/// its log has the commands that passed as ever, then the command that failed with all
/// that it printed, verbose or not, and the reason; no command comes behind it.
pub proof fn a_failing_list_tells_all(
    run: CommandRunView,
    outputs: Seq<Seq<char>>,
    reason: Seq<char>,
    output: Seq<char>,
    pieces: Seq<Seq<char>>,
)
    requires
        !run.dry_run,
        outputs.len() < run.remaining.len(),
        pieces.len() == outputs.len(),
        forall|i: int|
            0 <= i < pieces.len() ==> #[trigger] pieces[i] == seq!['>', ' ']
                + command::command_line(run.remaining[i]) + seq!['\n'] + if run.verbose_log {
                outputs[i]
            } else {
                Seq::empty()
            },
    ensures
        outcome(
            StepView::Continue(run),
            passes(outputs).push(ResultView::Failed { reason, output }),
        ) == Some(
            WorkView {
                records: seq![
                    RecordView { name: run.name, status: StatusView::Failure(reason) },
                ],
                log: run.log + pieces.flatten() + seq!['>', ' '] + command::command_line(
                    run.remaining[outputs.len() as int],
                ) + seq!['\n'] + output + seq!['F', 'A', 'I', 'L', ':', ' '] + reason + seq!['\n'],
            },
        ),
{
    let failed = ResultView::Failed { reason, output };
    let results = passes(outputs).push(failed);
    reveal_strlit("> ");
    reveal_strlit("\n");
    reveal_strlit("FAIL: ");
    assert("> "@ =~= seq!['>', ' ']);
    assert("\n"@ =~= seq!['\n']);
    assert("FAIL: "@ =~= seq!['F', 'A', 'I', 'L', ':', ' ']);
    assert(results.drop_last() =~= passes(outputs));
    first_failure_ends_the_list(run, results);
    let last = announcement(run.remaining[outputs.len() as int]) + result_text(
        failed,
        run.verbose_log,
    );
    lemma_transcript_in_pieces(run.remaining, results, run.verbose_log, pieces.push(last));
    pieces.lemma_flatten_push(last);
    let whole = run.log + transcript(run.remaining, results, run.verbose_log);
    assert(whole =~= run.log + pieces.flatten() + "> "@ + command::command_line(
        run.remaining[outputs.len() as int],
    ) + "\n"@ + output + "FAIL: "@ + reason + "\n"@);
}

/// In a dry run a list is a success under its name, whatever its commands would come
/// to, and its log is what it was, then each command in its turn, and then that all is
/// well.
pub proof fn a_dry_list_tells_all(
    run: CommandRunView,
    results: Seq<ResultView>,
    pieces: Seq<Seq<char>>,
)
    requires
        run.dry_run,
        pieces.len() == run.remaining.len(),
        forall|i: int|
            0 <= i < pieces.len() ==> #[trigger] pieces[i] == seq!['>', ' ']
                + command::command_line(run.remaining[i]) + seq!['\n'],
    ensures
        outcome(StepView::Continue(run), results) == Some(
            WorkView {
                records: seq![RecordView { name: run.name, status: StatusView::Success }],
                log: run.log + pieces.flatten() + seq!['O', 'K', '\n'],
            },
        ),
{
    reveal_strlit("> ");
    reveal_strlit("\n");
    reveal_strlit("OK\n");
    assert("> "@ =~= seq!['>', ' ']);
    assert("\n"@ =~= seq!['\n']);
    assert("OK\n"@ =~= seq!['O', 'K', '\n']);
    dry_run_only_lists(run, results);
    lemma_listing_in_pieces(run.remaining, pieces);
}

proof fn lemma_listing_in_pieces(commands: Seq<Seq<Seq<char>>>, pieces: Seq<Seq<char>>)
    requires
        pieces.len() == commands.len(),
        forall|i: int|
            0 <= i < pieces.len() ==> #[trigger] pieces[i] == announcement(commands[i]),
    ensures
        listing(commands) == pieces.flatten(),
    decreases commands.len(),
{
    if commands.len() > 0 {
        assert forall|i: int| 0 <= i < pieces.len() - 1 implies #[trigger] pieces.drop_first()[i]
            == announcement(commands.drop_first()[i]) by {
            assert(pieces.drop_first()[i] == pieces[i + 1]);
        }
        lemma_listing_in_pieces(commands.drop_first(), pieces.drop_first());
    }
}

} // verus!
