//! A run from its beginning to its summary.

use vstd::prelude::*;

use crate::cli::Cli;
use crate::clock;
use crate::clock::LocalTime;
use crate::error::AppError;
use crate::join;
use crate::logger;
use crate::logger::{LineView, LogPlan, LogPlanView, LogText, Logger, LoggerView};
use crate::order;
use crate::path::FilePath;
use crate::plan;
use crate::plan::GroupView;
use crate::record;
use crate::record::{RecordView, RunSummary, StatusView, StepRecord, SummaryView};
use crate::style::Tone;
use crate::text;
use crate::work;
use crate::work::{WorkOutput, WorkView};
use crate::workflow;
use crate::workflow::{ToolPhase, ToolPhaseView};

verus! {

/// The home directory, where `value` is what the environment says of it, if
/// anything.
pub fn home_dir(value: Option<Vec<u8>>) -> (home: Result<FilePath, AppError>)
    ensures
        match value {
            Some(bytes) if bytes@.len() > 0 => home matches Ok(path) && path@ == bytes@,
            _ => home matches Err(AppError::HomeMissing),
        },
{
    match value {
        Some(bytes) => {
            if bytes.len() > 0 {
                Ok(FilePath { bytes })
            } else {
                Err(AppError::HomeMissing)
            }
        },
        None => Err(AppError::HomeMissing),
    }
}

/// `jobs`, if that many projects can be updated at a time.
pub fn validate_jobs(jobs: usize) -> (valid: Result<usize, AppError>)
    ensures
        if jobs == 0 {
            valid matches Err(AppError::InvalidJobs)
        } else {
            valid matches Ok(n) && n == jobs
        },
{
    if jobs == 0 {
        Err(AppError::InvalidJobs)
    } else {
        Ok(jobs)
    }
}

/// A run that can begin.
#[derive(Debug)]
pub struct Preparation {
    cli: Cli,
    home: FilePath,
}

/// A [`Preparation`] in terms of bytes.
#[verifier::ext_equal]
pub struct PreparationView {
    pub cli: Cli,
    pub home: Seq<u8>,
}

impl View for Preparation {
    type V = PreparationView;

    closed spec fn view(&self) -> PreparationView {
        PreparationView { cli: self.cli, home: self.home@ }
    }
}

/// Prepares a run below `home`.
pub fn run_with_home(cli: Cli, home: FilePath) -> (prepared: Result<Preparation, AppError>)
    ensures
        if cli.jobs == 0 {
            prepared matches Err(AppError::InvalidJobs)
        } else {
            prepared matches Ok(p) && p@ == (PreparationView { cli, home: home@ })
        },
{
    match validate_jobs(cli.jobs) {
        Ok(_) => Ok(Preparation { cli, home }),
        Err(error) => Err(error),
    }
}

/// Prepares a run, where `home` is what the environment says of the home
/// directory, if anything.
pub fn run(cli: Cli, home: Option<Vec<u8>>) -> (prepared: Result<Preparation, AppError>)
    ensures
        match home {
            Some(bytes) if bytes@.len() > 0 => if cli.jobs == 0 {
                prepared matches Err(AppError::InvalidJobs)
            } else {
                prepared matches Ok(p) && p@ == (PreparationView { cli, home: bytes@ })
            },
            _ => prepared matches Err(AppError::HomeMissing),
        },
{
    match home_dir(home) {
        Ok(path) => run_with_home(cli, path),
        Err(error) => Err(error),
    }
}

/// A run that waits for its log file.
#[derive(Debug)]
pub struct LogSetup {
    preparation: Preparation,
    plan: LogPlan,
}

/// A [`LogSetup`] in terms of characters and bytes.
#[verifier::ext_equal]
pub struct LogSetupView {
    pub preparation: PreparationView,
    /// Where the log file goes.
    pub plan: LogPlanView,
}

impl View for LogSetup {
    type V = LogSetupView;

    closed spec fn view(&self) -> LogSetupView {
        LogSetupView { preparation: self.preparation@, plan: self.plan@ }
    }
}

impl Preparation {
    /// Decides on the log file of a run that begins at `now`. Which log files are
    /// out of date is counted back from `later`.
    pub fn plan_log(self, now: LocalTime, later: LocalTime) -> (setup: Result<LogSetup, AppError>)
        requires
            now.valid(),
            later.valid(),
            later.day_number() - clock::LOG_RETENTION_DAYS > clock::days_before_year(-9999),
        ensures
            setup matches Ok(made) && made@.preparation == self@ && logger::is_plan(
                made@.plan,
                self@.home,
                now,
                later,
            ),
    {
        match LogPlan::new(&self.home, now, later) {
            Ok(plan) => Ok(LogSetup { preparation: self, plan }),
            Err(error) => Err(error),
        }
    }
}

/// How the first lines of a run describe it.
pub open spec fn mode_text(cli: Cli) -> Seq<char> {
    let kind = if cli.dry_run {
        "Mode: dry-run, project jobs: "@
    } else if cli.deep {
        "Mode: deep, project jobs: "@
    } else {
        "Mode: default, project jobs: "@
    };
    let mode = kind + text::decimal_text(cli.jobs as nat);
    if cli.verbose_log {
        mode + ", verbose log"@
    } else {
        mode
    }
}

/// The lines that name `groups`.
pub open spec fn group_lines(groups: Seq<GroupView>) -> Seq<LineView> {
    groups.map_values(|group: GroupView| logger::toned_line("  - "@ + group.name, Tone::Muted))
}

/// The lines that a run begins with, before the tool chains are named.
pub open spec fn heading_lines(cli: Cli, stamp: Seq<char>) -> Seq<LineView> {
    seq![
        logger::toned_line("daily-ups"@, Tone::Header),
        logger::plain_line("started: "@ + stamp),
        logger::toned_line(mode_text(cli), Tone::Muted),
        logger::plain_line(""@),
        logger::plain_line(""@),
        logger::toned_line("Update order"@, Tone::Header),
    ]
}

/// The line that names the projects.
pub open spec fn projects_line(jobs: nat) -> LineView {
    logger::toned_line(
        "  - Projects after toolchains (jobs: "@ + text::decimal_text(jobs) + ")"@,
        Tone::Muted,
    )
}

/// The lines that a run begins with, if it began at the time that reads `stamp`.
pub open spec fn opening_lines(cli: Cli, stamp: Seq<char>) -> Seq<LineView> {
    (heading_lines(cli, stamp) + group_lines(plan::tool_table())).push(
        projects_line(cli.jobs as nat),
    )
}

fn describe_mode(cli: Cli) -> (mode: String)
    ensures
        mode@ == mode_text(cli),
{
    let kind = if cli.dry_run {
        "Mode: dry-run, project jobs: "
    } else if cli.deep {
        "Mode: deep, project jobs: "
    } else {
        "Mode: default, project jobs: "
    };
    let mode = kind.to_string().concat(text::decimal(cli.jobs as u64).as_str());
    if cli.verbose_log {
        mode.concat(", verbose log")
    } else {
        mode
    }
}

/// One more of `lines` is written behind the first `count`.
proof fn lemma_next_line(start: LoggerView, lines: Seq<LineView>, count: int)
    requires
        0 <= count < lines.len(),
    ensures
        start.with_lines(lines.take(count)).with_lines(seq![lines[count]]) == start.with_lines(
            lines.take(count + 1),
        ),
{
    logger::lines_follow_each_other(start, lines.take(count), seq![lines[count]]);
    assert(lines.take(count) + seq![lines[count]] =~= lines.take(count + 1));
}

/// Writes the lines that a run begins with.
pub fn print_opening(logger: &mut Logger, cli: Cli, stamp: &str)
    ensures
        final(logger)@ == old(logger)@.with_lines(opening_lines(cli, stamp@)),
{
    let ghost start = logger@;
    let ghost heading = heading_lines(cli, stamp@);
    let started = "started: ".to_string().concat(stamp);
    let mode = describe_mode(cli);
    logger.line_colored("daily-ups", Tone::Header);
    logger.line(started.as_str());
    logger.line_colored(mode.as_str(), Tone::Muted);
    logger.line("");
    logger.line("");
    logger.line_colored("Update order", Tone::Header);
    proof {
        assert(heading.take(1) =~= seq![heading[0]]);
        lemma_next_line(start, heading, 1);
        lemma_next_line(start, heading, 2);
        lemma_next_line(start, heading, 3);
        lemma_next_line(start, heading, 4);
        lemma_next_line(start, heading, 5);
        assert(heading.take(6) =~= heading);
    }
    let groups = plan::tool_groups();
    let ghost table = plan::tool_table();
    assert(heading + group_lines(table.take(0)) =~= heading);
    for i in 0..groups.len()
        invariant
            plan::group_views(groups@) == table,
            logger@ == start.with_lines(heading + group_lines(table.take(i as int))),
    {
        let line = "  - ".to_string().concat(groups[i].name);
        proof {
            let so_far = heading + group_lines(table.take(i as int));
            let next = seq![logger::toned_line(line@, Tone::Muted)];
            assert(groups@[i as int]@ == table[i as int]);
            logger::lines_follow_each_other(start, so_far, next);
            assert(so_far + next =~= heading + group_lines(table.take(i + 1)));
        }
        logger.line_colored(line.as_str(), Tone::Muted);
    }
    let last = "  - Projects after toolchains (jobs: ".to_string().concat(
        text::decimal(cli.jobs as u64).as_str(),
    ).concat(")");
    proof {
        assert(table.take(table.len() as int) =~= table);
        let so_far = heading + group_lines(table);
        let next = seq![projects_line(cli.jobs as nat)];
        logger::lines_follow_each_other(start, so_far, next);
        assert(so_far + next =~= opening_lines(cli, stamp@));
    }
    logger.line_colored(last.as_str(), Tone::Muted);
}

/// A run that has begun.
#[derive(Debug)]
pub struct Session {
    preparation: Preparation,
    logger: Logger,
    records: Vec<StepRecord>,
}

/// A [`Session`] in terms of characters and bytes.
#[verifier::ext_equal]
pub struct SessionView {
    pub preparation: PreparationView,
    pub logger: LoggerView,
    /// What was recorded so far.
    pub records: Seq<RecordView>,
}

impl View for Session {
    type V = SessionView;

    closed spec fn view(&self) -> SessionView {
        SessionView {
            preparation: self.preparation@,
            logger: self.logger@,
            records: record::record_views(self.records@),
        }
    }
}

/// A run that begins at the time that reads `stamp`, with the log file of `plan`
/// unless that could not be created because of `error`.
pub open spec fn begun(
    preparation: PreparationView,
    plan: LogPlanView,
    error: Option<Seq<char>>,
    stamp: Seq<char>,
) -> SessionView {
    let silent = LoggerView {
        path: if error is None {
            Some(plan.path)
        } else {
            None
        },
        terminal: Seq::empty(),
        file: Seq::empty(),
    };
    SessionView {
        preparation,
        logger: silent.with_lines(opening_lines(preparation.cli, stamp)),
        records: match error {
            None => Seq::empty(),
            Some(e) => seq![logger::missing_log(text::lossy_text(plan.dir), e)],
        },
    }
}

/// The error of an attempt, if it failed.
pub open spec fn error_of(attempt: Result<(), String>) -> Option<Seq<char>> {
    match attempt {
        Ok(_) => None,
        Err(error) => Some(error@),
    }
}

impl LogSetup {
    /// Where the log file goes.
    pub fn plan(&self) -> (plan: &LogPlan)
        ensures
            plan@ == self@.plan,
    {
        &self.plan
    }

    /// Begins the run at the time `started`. `opened` tells what became of the log
    /// file.
    pub fn begin(self, opened: Result<(), String>, started: LocalTime) -> (session: Result<
        Session,
        AppError,
    >)
        requires
            started.valid(),
        ensures
            session matches Ok(s) && s@ == begun(
                self@.preparation,
                self@.plan,
                error_of(opened),
                started.stamp(),
            ),
    {
        let (mut logger, failure) = Logger::new(self.plan, opened);
        let stamp = match clock::timestamp_at(started) {
            Ok(stamp) => stamp,
            Err(error) => return Err(error),
        };
        print_opening(&mut logger, self.preparation.cli, stamp.as_str());
        let mut records: Vec<StepRecord> = Vec::new();
        if let Some(record) = failure {
            records.push(record);
        }
        let session = Session { preparation: self.preparation, logger, records };
        assert(session@ =~= begun(
            self@.preparation,
            self@.plan,
            error_of(opened),
            started.stamp(),
        ));
        Ok(session)
    }
}

/// `logger` with the logs of `outputs`. The terminal shows them in a dry run alone.
pub open spec fn worked(logger: LoggerView, outputs: Seq<WorkView>, dry_run: bool) -> LoggerView {
    if dry_run {
        logger.emitted(work::all_logs(outputs))
    } else {
        logger.written(work::all_logs(outputs))
    }
}

/// What a run comes to.
#[derive(Debug)]
pub struct Report {
    pub summary: RunSummary,
    /// What is to be written at the end.
    pub text: LogText,
}

impl SessionView {
    /// The summary of the run, if its work came to `outputs`.
    pub open spec fn summary(self, outputs: Seq<WorkView>) -> SummaryView {
        record::summary_of(self.records + work::all_records(outputs), self.logger.path)
    }

    /// What the run has written when it is over, if its work came to `outputs`.
    pub open spec fn closed(self, outputs: Seq<WorkView>) -> LoggerView {
        let dry_run = self.preparation.cli.dry_run;
        worked(self.logger, outputs, dry_run).with_lines(
            logger::summary_lines(self.summary(outputs), dry_run),
        )
    }
}

/// The work of a run.
pub open spec fn planned_work(preparation: PreparationView) -> ToolPhaseView {
    ToolPhaseView {
        groups: plan::tool_table(),
        projects: plan::project_table(preparation.home, preparation.cli.deep),
        dry_run: preparation.cli.dry_run,
        verbose_log: preparation.cli.verbose_log,
        jobs: preparation.cli.jobs as nat,
    }
}

impl Session {
    /// Hands out what is to be written by now.
    pub fn take_text(&mut self) -> (text: LogText)
        ensures
            text.terminal@ == old(self)@.logger.terminal,
            text.file@ == old(self)@.logger.file,
            final(self)@ == (SessionView {
                logger: LoggerView {
                    terminal: Seq::empty(),
                    file: Seq::empty(),
                    ..old(self)@.logger
                },
                ..old(self)@
            }),
    {
        self.logger.take_text()
    }

    /// The work of the run.
    pub fn workflow(&self) -> (phase: ToolPhase)
        ensures
            phase@ == planned_work(self@.preparation),
            phase@ == (ToolPhaseView {
                groups: plan::tool_table(),
                projects: plan::project_table(
                    self@.preparation.home,
                    self@.preparation.cli.deep,
                ),
                dry_run: self@.preparation.cli.dry_run,
                verbose_log: self@.preparation.cli.verbose_log,
                jobs: self@.preparation.cli.jobs as nat,
            }),
    {
        let cli = self.preparation.cli;
        workflow::run_parallel(
            cli.dry_run,
            cli.deep,
            cli.verbose_log,
            cli.jobs,
            &self.preparation.home,
        )
    }

    /// Ends the run, whose work came to `outputs`.
    pub fn finish(self, outputs: Vec<WorkOutput>) -> (report: Report)
        ensures
            report.summary@ == self@.summary(join::work_views(outputs@)),
            report.text.terminal@ == self@.closed(join::work_views(outputs@)).terminal,
            report.text.file@ == self@.closed(join::work_views(outputs@)).file,
    {
        let dry_run = self.preparation.cli.dry_run;
        let mut logger = self.logger;
        let mut records = self.records;
        let ghost views = join::work_views(outputs@);
        let ghost start = self@;
        proof {
            assert(start.records + work::all_records(views.take(0)) =~= start.records);
            assert(start.logger.terminal + work::all_logs(views.take(0))
                =~= start.logger.terminal);
            assert(start.logger.file + work::all_logs(views.take(0)) =~= start.logger.file);
            assert(worked(start.logger, views.take(0), dry_run) =~= start.logger);
        }
        for output in it: outputs
            invariant
                it.seq() == outputs@,
                views == join::work_views(outputs@),
                record::record_views(records@) == start.records + work::all_records(
                    views.take(it.index() as int),
                ),
                logger@ == worked(start.logger, views.take(it.index() as int), dry_run),
        {
            let mut more = output.records;
            proof {
                let longer = views.take(it.index() + 1);
                assert(longer.drop_last() =~= views.take(it.index() as int));
                assert(longer.last() == output@);
                record::lemma_record_views_add(records@, more@);
                assert(start.records + work::all_records(longer) =~= record::record_views(records@)
                    + record::record_views(more@));
                assert(start.logger.terminal + work::all_logs(longer) =~= start.logger.terminal
                    + work::all_logs(longer.drop_last()) + output@.log);
                assert(start.logger.file + work::all_logs(longer) =~= start.logger.file
                    + work::all_logs(longer.drop_last()) + output@.log);
            }
            if dry_run {
                logger.emit(output.log.as_str());
            } else {
                logger.write_log(output.log.as_str());
            }
            records.append(&mut more);
        }
        assert(views.take(views.len() as int) =~= views);
        let log_path = logger.path();
        let summary = record::summarize(records, log_path);
        logger::print_summary(&mut logger, &summary, dry_run);
        let text = logger.take_text();
        Report { summary, text }
    }
}

/// What the work of a run comes to, if its tool chains came to `tools` and its
/// projects to `projects`.
pub open spec fn whole_work(tools: Seq<WorkView>, projects: Seq<WorkView>) -> Seq<WorkView> {
    tools.push(work::merged("\n===> Projects\n"@, projects))
}

/// What a run reports does not depend on which of its threads was faster, nor on
/// how the projects fell to the threads.
pub proof fn threads_do_not_change_the_report(
    tools: Seq<WorkView>,
    joined: Seq<Option<(usize, WorkView)>>,
    projects: Seq<WorkView>,
    schedule: Seq<nat>,
    workers: nat,
)
    requires
        tools.len() <= usize::MAX,
        projects.len() <= usize::MAX,
        order::is_shuffle(join::group_entries(joined), tools),
        schedule.len() == projects.len(),
        forall|i: int| 0 <= i < schedule.len() ==> #[trigger] schedule[i] < workers,
    ensures
        join::group_report(joined).push(
            join::project_report(join::shares(projects, schedule, workers)),
        ) == whole_work(tools, projects),
{
    join::tool_chains_are_reported_in_their_order(joined, tools);
    join::every_schedule_gives_one_report(projects, schedule, workers);
}

/// The summary lists what there is of the log file first, then the tool chains,
/// then the projects.
pub proof fn tool_chains_are_listed_before_projects(
    session: SessionView,
    tools: Seq<WorkView>,
    projects: Seq<WorkView>,
)
    ensures
        session.summary(whole_work(tools, projects)) == record::summary_of(
            session.records + work::all_records(tools) + work::all_records(projects),
            session.logger.path,
        ),
{
    work::lemma_all_push(tools, work::merged("\n===> Projects\n"@, projects));
    assert(session.records + work::all_records(whole_work(tools, projects)) =~= session.records
        + work::all_records(tools) + work::all_records(projects));
}

/// The summary has one line for each tool chain and one for each project, besides
/// those that were recorded before.
pub proof fn every_step_has_one_line(
    session: SessionView,
    tools: Seq<WorkView>,
    projects: Seq<WorkView>,
)
    requires
        forall|i: int| 0 <= i < tools.len() ==> (#[trigger] tools[i]).records.len() == 1,
        forall|i: int| 0 <= i < projects.len() ==> (#[trigger] projects[i]).records.len() == 1,
    ensures
        ({
            let summary = session.summary(whole_work(tools, projects));
            summary.successes.len() + summary.failures.len() + summary.skipped.len()
                == session.records.len() + tools.len() + projects.len()
        }),
{
    tool_chains_are_listed_before_projects(session, tools, projects);
    work::one_record_for_each_output(tools);
    work::one_record_for_each_output(projects);
    record::summary_counts_every_record(
        session.records + work::all_records(tools) + work::all_records(projects),
        session.logger.path,
    );
}

/// A run ends with the exit code 0 if and only if its log file could be created and
/// every tool chain and every project was updated.
pub proof fn a_run_succeeds_if_every_step_does(
    preparation: PreparationView,
    plan: LogPlanView,
    error: Option<Seq<char>>,
    stamp: Seq<char>,
    tools: Seq<WorkView>,
    projects: Seq<WorkView>,
)
    ensures
        begun(preparation, plan, error, stamp).summary(whole_work(tools, projects)).exit_code()
            == 0 <==> {
            &&& error is None
            &&& forall|i: int|
                0 <= i < work::all_records(tools).len() ==> (#[trigger] work::all_records(
                    tools,
                )[i]).status is Success
            &&& forall|i: int|
                0 <= i < work::all_records(projects).len() ==> (#[trigger] work::all_records(
                    projects,
                )[i]).status is Success
        },
{
    let session = begun(preparation, plan, error, stamp);
    let a = session.records;
    let b = work::all_records(tools);
    let c = work::all_records(projects);
    let all = a + b + c;
    tool_chains_are_listed_before_projects(session, tools, projects);
    record::exit_code_tells_whether_all_succeeded(all, session.logger.path);
    assert forall|i: int| 0 <= i < b.len() implies all[a.len() + i] == b[i] by {}
    assert forall|i: int| 0 <= i < c.len() implies all[a.len() + b.len() + i] == c[i] by {}
    if error is Some {
        assert(all[0] == a[0]);
        assert(all[0].status is Failure);
    } else if forall|i: int| 0 <= i < all.len() ==> (#[trigger] all[i]).status is Success {
        assert forall|i: int| 0 <= i < b.len() implies (#[trigger] b[i]).status is Success by {
            assert(all[a.len() + i].status is Success);
        }
        assert forall|i: int| 0 <= i < c.len() implies (#[trigger] c[i]).status is Success by {
            assert(all[a.len() + b.len() + i].status is Success);
        }
    } else {
        let i = choose|i: int| 0 <= i < all.len() && !((#[trigger] all[i]).status is Success);
        if i < b.len() {
            assert(b[i] == all[i]);
        } else {
            assert(c[i - b.len()] == all[i]);
        }
    }
}

/// A run whose log file could not be created says so: it is the first failure of
/// the summary, there is no path of a log, nothing is kept for one, and the exit
/// code is 1 whatever else comes of the run.
pub proof fn a_missing_log_is_a_failure(
    preparation: PreparationView,
    plan: LogPlanView,
    error: Seq<char>,
    stamp: Seq<char>,
    outputs: Seq<WorkView>,
)
    ensures
        ({
            let session = begun(preparation, plan, Some(error), stamp);
            let summary = session.summary(outputs);
            &&& summary.exit_code() == 1
            &&& summary.log_path is None
            &&& summary.failures.len() > 0
            &&& summary.failures[0] == "Logging: could not create log file under "@
                + text::lossy_text(plan.dir) + ": "@ + error
            &&& session.closed(outputs).file == Seq::<char>::empty()
        }),
{
    let session = begun(preparation, plan, Some(error), stamp);
    let first = seq![logger::missing_log(text::lossy_text(plan.dir), error)];
    let rest = work::all_records(outputs);
    record::summaries_add_up(first, rest, session.logger.path);
    let failing = |r: RecordView| r.status is Failure;
    assert(first =~= Seq::<RecordView>::empty().push(first[0]));
    Seq::<RecordView>::empty().lemma_filter_push(first[0], failing);
    assert(record::failure_lines(first)[0] == first[0].name + ": "@ + first[0].status->Failure_0);
    reveal_strlit("Logging");
    reveal_strlit(": ");
    reveal_strlit("could not create log file under ");
    reveal_strlit("Logging: could not create log file under ");
    assert("Logging"@ + ": "@ + "could not create log file under "@
        =~= "Logging: could not create log file under "@);
    assert(record::failure_lines(first)[0] =~= "Logging: could not create log file under "@
        + text::lossy_text(plan.dir) + ": "@ + error);
}

/// The log file gets the logs of all the work and the whole summary. The terminal
/// shows the summary too, but the logs of the work in a dry run alone.
pub proof fn the_log_file_gets_everything(session: SessionView, outputs: Seq<WorkView>)
    requires
        session.logger.path is Some,
    ensures
        ({
            let cli = session.preparation.cli;
            let lines = logger::summary_lines(session.summary(outputs), cli.dry_run);
            let logs = work::all_logs(outputs);
            &&& session.closed(outputs).file == session.logger.file + logs + logger::plain_text(
                lines,
            )
            &&& session.closed(outputs).terminal == session.logger.terminal + (if cli.dry_run {
                logs
            } else {
                Seq::empty()
            }) + logger::terminal_text(lines)
        }),
{
    assert(session.logger.terminal + Seq::<char>::empty() =~= session.logger.terminal);
}

/// The mode of a run is told by its flags, with the number of projects at a time in
/// full. A dry run is called that even if it would be deep.
pub proof fn the_mode_is_told_in_full(cli: Cli)
    ensures
        ({
            let jobs = text::decimal_text(cli.jobs as nat);
            let end = if cli.verbose_log {
                ", verbose log"@
            } else {
                Seq::empty()
            };
            &&& cli.dry_run ==> mode_text(cli) == "Mode: dry-run, project jobs: "@ + jobs + end
            &&& !cli.dry_run && cli.deep ==> mode_text(cli) == "Mode: deep, project jobs: "@ + jobs
                + end
            &&& !cli.dry_run && !cli.deep ==> mode_text(cli) == "Mode: default, project jobs: "@
                + jobs + end
        }),
{
}

/// A run begins with its name, the time, its mode and two empty lines, and then names
/// every tool chain in its order and the projects behind them.
pub proof fn a_run_begins_with_its_plan(cli: Cli, stamp: Seq<char>)
    ensures
        ({
            let lines = opening_lines(cli, stamp);
            let groups = plan::tool_table();
            &&& lines.len() == groups.len() + 7
            &&& lines[0] == logger::toned_line("daily-ups"@, Tone::Header)
            &&& lines[1] == logger::plain_line("started: "@ + stamp)
            &&& lines[2] == logger::toned_line(mode_text(cli), Tone::Muted)
            &&& lines[3] == logger::plain_line(Seq::empty())
            &&& lines[4] == logger::plain_line(Seq::empty())
            &&& lines[5] == logger::toned_line("Update order"@, Tone::Header)
            &&& forall|i: int|
                0 <= i < groups.len() ==> lines[6 + i] == logger::toned_line(
                    seq![' ', ' ', '-', ' '] + (#[trigger] groups[i]).name,
                    Tone::Muted,
                )
            &&& lines.last() == logger::toned_line(
                "  - Projects after toolchains (jobs: "@ + text::decimal_text(cli.jobs as nat)
                    + ")"@,
                Tone::Muted,
            )
        }),
{
    reveal_strlit("");
    reveal_strlit("  - ");
    assert(""@ =~= Seq::<char>::empty());
    assert("  - "@ =~= seq![' ', ' ', '-', ' ']);
}

/// A run that has begun has written its plan and nothing else, on the terminal and, if
/// there is one, in the log file; it has recorded nothing but that there is none.
pub proof fn a_run_begins_with_nothing_but_its_plan(
    preparation: PreparationView,
    plan: LogPlanView,
    error: Option<Seq<char>>,
    stamp: Seq<char>,
)
    ensures
        ({
            let session = begun(preparation, plan, error, stamp);
            let lines = opening_lines(preparation.cli, stamp);
            &&& session.preparation == preparation
            &&& session.logger.terminal == logger::terminal_text(lines)
            &&& error is None ==> {
                &&& session.logger.path == Some(plan.path)
                &&& session.logger.file == logger::plain_text(lines)
                &&& session.records.len() == 0
            }
            &&& error matches Some(e) ==> {
                &&& session.logger.path is None
                &&& session.logger.file.len() == 0
                &&& session.records == seq![
                    logger::missing_log(text::lossy_text(plan.dir), e),
                ]
            }
        }),
{
    let lines = opening_lines(preparation.cli, stamp);
    assert(Seq::<char>::empty() + logger::terminal_text(lines) =~= logger::terminal_text(lines));
    assert(Seq::<char>::empty() + logger::plain_text(lines) =~= logger::plain_text(lines));
}

/// The line of the summary that is about `record`.
pub open spec fn line_about(record: RecordView) -> Seq<char> {
    match record.status {
        StatusView::Success => record.name,
        StatusView::Failure(reason) => record.name + seq![':', ' '] + reason,
        StatusView::Skipped(reason) => record.name + seq![':', ' '] + reason,
    }
}

/// Each record has its line in the list of the summary that its status belongs to.
proof fn lemma_record_is_listed(records: Seq<RecordView>, log_path: Option<Seq<u8>>, i: int)
    requires
        0 <= i < records.len(),
    ensures
        ({
            let summary = record::summary_of(records, log_path);
            let line = line_about(records[i]);
            match records[i].status {
                StatusView::Success => summary.successes.contains(line),
                StatusView::Failure(_) => summary.failures.contains(line),
                StatusView::Skipped(_) => summary.skipped.contains(line),
            }
        }),
    decreases records.len(),
{
    let front = records.drop_last();
    let last = records.last();
    let before = record::summary_of(front, log_path);
    let after = record::summary_of(records, log_path);
    assert(records =~= front.push(last));
    record::a_record_adds_one_line(front, last, log_path);
    if i < front.len() {
        lemma_record_is_listed(front, log_path, i);
        let line = line_about(records[i]);
        assert(front[i] == records[i]);
        match records[i].status {
            StatusView::Success => {
                let k = choose|k: int| 0 <= k < before.successes.len() && before.successes[k]
                    == line;
                assert(after.successes[k] == line);
            },
            StatusView::Failure(_) => {
                let k = choose|k: int| 0 <= k < before.failures.len() && before.failures[k] == line;
                assert(after.failures[k] == line);
            },
            StatusView::Skipped(_) => {
                let k = choose|k: int| 0 <= k < before.skipped.len() && before.skipped[k] == line;
                assert(after.skipped[k] == line);
            },
        }
    } else {
        match last.status {
            StatusView::Success => {
                assert(after.successes[before.successes.len() as int] == line_about(last));
            },
            StatusView::Failure(_) => {
                assert(after.failures[before.failures.len() as int] == line_about(last));
            },
            StatusView::Skipped(_) => {
                assert(after.skipped[before.skipped.len() as int] == line_about(last));
            },
        }
    }
}

/// Every step of a run, of whichever tool chain or project, stands on a line of its own
/// in what is written at the end, with its whole reason, in the colour of how it ended.
pub proof fn every_step_stands_in_the_text(
    session: SessionView,
    outputs: Seq<WorkView>,
    o: int,
    r: int,
)
    requires
        0 <= o < outputs.len(),
        0 <= r < outputs[o].records.len(),
    ensures
        ({
            let record = outputs[o].records[r];
            let dry_run = session.preparation.cli.dry_run;
            let lines = logger::summary_lines(session.summary(outputs), dry_run);
            let tone = match record.status {
                StatusView::Success => if dry_run {
                    Tone::Muted
                } else {
                    Tone::Success
                },
                StatusView::Failure(_) => Tone::Failure,
                StatusView::Skipped(_) => Tone::Skipped,
            };
            lines.contains(
                logger::toned_line(seq![' ', ' ', '-', ' '] + line_about(record), tone),
            )
        }),
{
    let record = outputs[o].records[r];
    let dry_run = session.preparation.cli.dry_run;
    let all = session.records + work::all_records(outputs);
    let summary = session.summary(outputs);
    let lines = logger::summary_lines(summary, dry_run);
    let line = line_about(record);
    let at = lemma_record_is_kept(outputs, o, r);
    assert(all[session.records.len() + at] == record);
    lemma_record_is_listed(all, session.logger.path, session.records.len() + at);
    logger::a_summary_has_every_step(summary, dry_run);
    let failed: int = 3 + logger::rows(summary.successes.len());
    let skipped: int = failed + 1 + logger::rows(summary.failures.len());
    match record.status {
        StatusView::Success => {
            let k = choose|k: int| 0 <= k < summary.successes.len() && summary.successes[k] == line;
            assert(summary.successes[k] == line);
            assert(lines.contains(lines[3 + k]));
        },
        StatusView::Failure(_) => {
            let k = choose|k: int| 0 <= k < summary.failures.len() && summary.failures[k] == line;
            assert(summary.failures[k] == line);
            assert(lines.contains(lines[failed + 1 + k]));
        },
        StatusView::Skipped(_) => {
            let k = choose|k: int| 0 <= k < summary.skipped.len() && summary.skipped[k] == line;
            assert(summary.skipped[k] == line);
            assert(lines.contains(lines[skipped + 1 + k]));
        },
    }
}

/// Each record of an output is one of all the records.
proof fn lemma_record_is_kept(outputs: Seq<WorkView>, o: int, r: int) -> (at: int)
    requires
        0 <= o < outputs.len(),
        0 <= r < outputs[o].records.len(),
    ensures
        0 <= at < work::all_records(outputs).len(),
        work::all_records(outputs)[at] == outputs[o].records[r],
    decreases outputs.len(),
{
    let front = outputs.drop_last();
    assert(outputs =~= front.push(outputs.last()));
    work::lemma_all_push(front, outputs.last());
    if o < front.len() {
        lemma_record_is_kept(front, o, r)
    } else {
        work::all_records(front).len() + r
    }
}

/// In the end a run has written, behind what it had written before, the logs of all its
/// outputs, one behind the other, and every line of the summary: in the log file if
/// there is one, and on the terminal, but for the logs unless it is a dry run.
pub proof fn a_run_ends_with_its_logs_and_its_summary(
    session: SessionView,
    outputs: Seq<WorkView>,
)
    ensures
        ({
            let dry_run = session.preparation.cli.dry_run;
            let logs = outputs.map_values(|o: WorkView| o.log).flatten();
            let records = session.records + outputs.map_values(|o: WorkView| o.records).flatten();
            let summary = session.summary(outputs);
            let lines = logger::summary_lines(summary, dry_run);
            let end = session.closed(outputs);
            &&& summary == record::summary_of(records, session.logger.path)
            &&& end.path == session.logger.path
            &&& end.file == if session.logger.path is Some {
                session.logger.file + logs + logger::plain_text(lines)
            } else {
                session.logger.file
            }
            &&& end.terminal == if dry_run {
                session.logger.terminal + logs + logger::terminal_text(lines)
            } else {
                session.logger.terminal + logger::terminal_text(lines)
            }
        }),
{
    work::outputs_are_put_together(Seq::empty(), outputs);
}

/// Every tool chain and every project gets the flags that the run was asked for, and the
/// projects are those below its home directory, deep or not as it was asked for. Neither
/// depends on what became of the tool chains.
pub proof fn the_flags_reach_every_step(
    preparation: PreparationView,
    joined: Seq<Option<(usize, WorkView)>>,
    i: int,
)
    requires
        0 <= i < 5,
    ensures
        ({
            let cli = preparation.cli;
            let work = planned_work(preparation);
            let later = work.after(joined);
            let queue = later.queue();
            let task = plan::project_table(preparation.home, cli.deep)[i];
            &&& work.groups == plan::tool_table()
            &&& work.dry_run == cli.dry_run && work.verbose_log == cli.verbose_log
            &&& later.jobs == cli.jobs
            &&& later.projects.len() == 5
            &&& queue.waiting.len() == 5
            &&& queue.waiting[i] == (i as usize, task)
            &&& queue.dry_run == cli.dry_run && queue.verbose_log == cli.verbose_log
            &&& cli.deep && i < 3 <==> exists|j: int|
                0 <= j < queue.waiting[i].1.commands.len() && #[trigger] plan::cleans(
                    queue.waiting[i].1.commands[j],
                )
        }),
{
    let task = plan::project_table(preparation.home, preparation.cli.deep)[i];
    plan::only_deep_runs_clean(preparation.home, i);
    if preparation.cli.deep {
        if i < 3 {
            assert(plan::cleans(task.commands[1]));
        }
    }
}

/// An attempt has an error if and only if it failed, and that is the one it has.
pub proof fn a_failed_attempt_has_its_error(attempt: Result<(), String>)
    ensures
        attempt is Ok <==> error_of(attempt) is None,
        attempt matches Err(error) ==> error_of(attempt) == Some(error@),
{
}

} // verus!
