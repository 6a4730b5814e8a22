//! What a run writes, on the terminal and in its log file.

use vstd::prelude::*;
use vstd::utf8;

use crate::clock;
use crate::clock::LocalTime;
use crate::error::AppError;
use crate::path;
use crate::path::FilePath;
use crate::record::{RecordView, RunSummary, StatusView, StepRecord, SummaryView};
use crate::style;
use crate::style::Tone;
use crate::text;

verus! {

/// A line: what the log file has of it, and what the terminal shows.
pub struct LineView {
    pub plain: Seq<char>,
    pub terminal: Seq<char>,
}

/// The line `text`, in no colour.
pub open spec fn plain_line(text: Seq<char>) -> LineView {
    LineView { plain: text, terminal: text }
}

/// The line `text`, which the terminal shows in `tone`.
pub open spec fn toned_line(text: Seq<char>, tone: Tone) -> LineView {
    LineView { plain: text, terminal: style::styled_text(text, tone) }
}

/// What the log file has of `lines`.
pub open spec fn plain_text(lines: Seq<LineView>) -> Seq<char>
    decreases lines.len(),
{
    if lines.len() == 0 {
        Seq::empty()
    } else {
        plain_text(lines.drop_last()) + lines.last().plain + "\n"@
    }
}

/// What the terminal shows of `lines`.
pub open spec fn terminal_text(lines: Seq<LineView>) -> Seq<char>
    decreases lines.len(),
{
    if lines.len() == 0 {
        Seq::empty()
    } else {
        terminal_text(lines.drop_last()) + lines.last().terminal + "\n"@
    }
}

/// Text that is ready to be written: on the terminal, and in the log file.
#[derive(Debug, Clone, PartialEq, Eq)]
pub struct LogText {
    pub terminal: String,
    pub file: String,
}

/// Collects what a run writes, until someone takes it and writes it.
#[derive(Debug)]
pub struct Logger {
    path: Option<FilePath>,
    terminal: String,
    file: String,
}

/// A [`Logger`] in terms of characters and bytes.
#[verifier::ext_equal]
pub struct LoggerView {
    /// The log file, if there is one.
    pub path: Option<Seq<u8>>,
    /// What is to be shown on the terminal.
    pub terminal: Seq<char>,
    /// What is to be added to the log file.
    pub file: Seq<char>,
}

impl View for Logger {
    type V = LoggerView;

    closed spec fn view(&self) -> LoggerView {
        LoggerView {
            path: path::optional_path(self.path),
            terminal: self.terminal@,
            file: self.file@,
        }
    }
}

impl LoggerView {
    /// With `text` added to the log file, where there is one.
    pub open spec fn written(self, text: Seq<char>) -> LoggerView {
        LoggerView {
            file: if self.path is Some {
                self.file + text
            } else {
                self.file
            },
            ..self
        }
    }

    /// With `text` added to both.
    pub open spec fn emitted(self, text: Seq<char>) -> LoggerView {
        LoggerView { terminal: self.terminal + text, ..self.written(text) }
    }

    /// With `lines` added to both.
    pub open spec fn with_lines(self, lines: Seq<LineView>) -> LoggerView {
        LoggerView {
            terminal: self.terminal + terminal_text(lines),
            ..self.written(plain_text(lines))
        }
    }
}

proof fn lemma_text_add(first: Seq<LineView>, second: Seq<LineView>)
    ensures
        plain_text(first + second) == plain_text(first) + plain_text(second),
        terminal_text(first + second) == terminal_text(first) + terminal_text(second),
    decreases second.len(),
{
    if second.len() == 0 {
        assert(first + second =~= first);
        assert(plain_text(first) + plain_text(second) =~= plain_text(first));
        assert(terminal_text(first) + terminal_text(second) =~= terminal_text(first));
    } else {
        let front = second.drop_last();
        lemma_text_add(first, front);
        assert((first + second).drop_last() =~= first + front);
        assert(plain_text(first + second) =~= plain_text(first) + plain_text(second));
        assert(terminal_text(first + second) =~= terminal_text(first) + terminal_text(second));
    }
}

/// Lines that follow others are written behind them.
pub proof fn lines_follow_each_other(
    logger: LoggerView,
    first: Seq<LineView>,
    second: Seq<LineView>,
)
    ensures
        logger.with_lines(first).with_lines(second) == logger.with_lines(first + second),
{
    lemma_text_add(first, second);
    assert(logger.with_lines(first).with_lines(second) =~= logger.with_lines(first + second));
}

proof fn lemma_one_line(logger: LoggerView, line: LineView)
    ensures
        logger.with_lines(seq![line]).terminal == logger.terminal + line.terminal + "\n"@,
        logger.with_lines(seq![line]).file == if logger.path is Some {
            logger.file + line.plain + "\n"@
        } else {
            logger.file
        },
{
    let lines = seq![line];
    assert(lines.drop_last() =~= Seq::<LineView>::empty());
    assert(plain_text(lines.drop_last()) =~= Seq::<char>::empty());
    assert(terminal_text(lines.drop_last()) =~= Seq::<char>::empty());
    assert(logger.terminal + terminal_text(lines) =~= logger.terminal + line.terminal + "\n"@);
    assert(logger.file + plain_text(lines) =~= logger.file + line.plain + "\n"@);
}

impl Logger {
    /// Adds the line `plain`, which the terminal shows as `terminal`.
    pub fn line_with_terminal(&mut self, plain: &str, terminal: &str)
        ensures
            final(self)@ == old(self)@.with_lines(
                seq![LineView { plain: plain@, terminal: terminal@ }],
            ),
    {
        proof {
            lemma_one_line(self@, LineView { plain: plain@, terminal: terminal@ });
        }
        self.terminal.append(terminal);
        self.terminal.append("\n");
        if self.path.is_some() {
            self.file.append(plain);
            self.file.append("\n");
        }
    }

    /// Adds a line in no colour.
    pub fn line(&mut self, line: &str)
        ensures
            final(self)@ == old(self)@.with_lines(seq![plain_line(line@)]),
    {
        self.line_with_terminal(line, line);
    }

    /// Adds a line that the terminal shows in `tone`.
    pub fn line_colored(&mut self, line: &str, tone: Tone)
        ensures
            final(self)@ == old(self)@.with_lines(seq![toned_line(line@, tone)]),
    {
        let terminal = style::styled(line, tone);
        self.line_with_terminal(line, terminal.as_str());
    }

    /// Adds `text`, as it is.
    pub fn emit(&mut self, text: &str)
        ensures
            final(self)@ == old(self)@.emitted(text@),
    {
        self.terminal.append(text);
        self.write_log(text);
    }

    /// Adds `text` to the log file alone.
    pub fn write_log(&mut self, text: &str)
        ensures
            final(self)@ == old(self)@.written(text@),
    {
        if self.path.is_some() {
            self.file.append(text);
        }
    }

    /// Hands out what is to be written, and keeps none of it.
    pub fn take_text(&mut self) -> (text: LogText)
        ensures
            text.terminal@ == old(self)@.terminal,
            text.file@ == old(self)@.file,
            final(self)@ == (LoggerView {
                terminal: Seq::empty(),
                file: Seq::empty(),
                ..old(self)@
            }),
    {
        let text = LogText { terminal: self.terminal.clone(), file: self.file.clone() };
        self.terminal = String::new();
        self.file = String::new();
        assert(self@ =~= (LoggerView {
            terminal: Seq::empty(),
            file: Seq::empty(),
            ..old(self)@
        }));
        text
    }
}

/// Where the log file of a run goes, and which others are out of date.
#[derive(Debug)]
pub struct LogPlan {
    dir: FilePath,
    path: FilePath,
    cutoff: String,
}

/// A [`LogPlan`] in terms of characters and bytes.
#[verifier::ext_equal]
pub struct LogPlanView {
    pub dir: Seq<u8>,
    pub path: Seq<u8>,
    /// The name of the earliest log file that is kept.
    pub cutoff: Seq<char>,
}

impl View for LogPlan {
    type V = LogPlanView;

    closed spec fn view(&self) -> LogPlanView {
        LogPlanView { dir: self.dir@, path: self.path@, cutoff: self.cutoff@ }
    }
}

/// The directory of the log files.
pub open spec fn log_dir(home: Seq<u8>) -> Seq<u8> {
    path::path_below(home, seq!["Library"@, "Logs"@, "daily-ups"@])
}

/// Whether `plan` is for a run that begins at `now` and counts back from `later`.
pub open spec fn is_plan(
    plan: LogPlanView,
    home: Seq<u8>,
    now: LocalTime,
    later: LocalTime,
) -> bool {
    &&& plan.dir == log_dir(home)
    &&& plan.path == path::path_join(plan.dir, utf8::encode_utf8(now.log_name()))
    &&& clock::is_cutoff_name(plan.cutoff, later)
}

/// What is recorded where there is no log file in the directory that reads
/// `shown_dir`, because of `error`.
pub open spec fn missing_log(shown_dir: Seq<char>, error: Seq<char>) -> RecordView {
    RecordView {
        name: "Logging"@,
        status: StatusView::Failure(
            "could not create log file under "@ + shown_dir + ": "@ + error,
        ),
    }
}

impl LogPlan {
    /// The plan for a run that begins at `now`. Which files are out of date is
    /// counted back from `later`.
    pub fn new(home: &FilePath, now: LocalTime, later: LocalTime) -> (plan: Result<
        LogPlan,
        AppError,
    >)
        requires
            now.valid(),
            later.valid(),
            later.day_number() - clock::LOG_RETENTION_DAYS > clock::days_before_year(-9999),
        ensures
            plan matches Ok(made) && is_plan(made@, home@, now, later),
    {
        let parts = ["Library", "Logs", "daily-ups"];
        let dir = home.below(&parts);
        assert(text::str_views(parts@) =~= seq!["Library"@, "Logs"@, "daily-ups"@]);
        let name = match clock::log_name_at(now) {
            Ok(name) => name,
            Err(error) => return Err(error),
        };
        let cutoff = match clock::retention_cutoff_log_name(later) {
            Ok(cutoff) => cutoff,
            Err(error) => return Err(error),
        };
        let path = dir.join(name.as_str());
        Ok(LogPlan { dir, path, cutoff })
    }

    /// The directory of the log files.
    pub fn dir(&self) -> (dir: &FilePath)
        ensures
            dir@ == self@.dir,
    {
        &self.dir
    }

    /// The log file of the run.
    pub fn path(&self) -> (path: &FilePath)
        ensures
            path@ == self@.path,
    {
        &self.path
    }

    /// The name of the earliest log file that is kept.
    pub fn cutoff(&self) -> (name: &str)
        ensures
            name@ == self@.cutoff,
    {
        self.cutoff.as_str()
    }
}

/// Records that there is no log file.
pub fn log_failure(shown_dir: &str, error: &str) -> (record: StepRecord)
    ensures
        record@ == missing_log(shown_dir@, error@),
{
    let reason = "could not create log file under ".to_string().concat(shown_dir).concat(
        ": ",
    ).concat(error);
    StepRecord::failure("Logging", reason.as_str())
}

/// The view of a record that may be missing.
pub open spec fn optional_record(record: Option<StepRecord>) -> Option<RecordView> {
    match record {
        Some(r) => Some(r@),
        None => None,
    }
}

impl Logger {
    /// A logger with nothing to write, and what is recorded of the attempt to
    /// create the log file of `plan`, where that failed with the error in `opened`.
    pub fn new(plan: LogPlan, opened: Result<(), String>) -> (made: (Logger, Option<StepRecord>))
        ensures
            made.0@ == (LoggerView {
                path: if opened is Ok {
                    Some(plan@.path)
                } else {
                    None
                },
                terminal: Seq::empty(),
                file: Seq::empty(),
            }),
            optional_record(made.1) == match opened {
                Ok(_) => None,
                Err(error) => Some(missing_log(text::lossy_text(plan@.dir), error@)),
            },
    {
        match opened {
            Ok(()) => {
                let logger = Logger {
                    path: Some(plan.path),
                    terminal: String::new(),
                    file: String::new(),
                };
                assert(logger@.terminal =~= Seq::empty() && logger@.file =~= Seq::empty());
                (logger, None)
            },
            Err(error) => {
                let record = log_failure(plan.dir.display().as_str(), error.as_str());
                let logger = Logger { path: None, terminal: String::new(), file: String::new() };
                assert(logger@.terminal =~= Seq::empty() && logger@.file =~= Seq::empty());
                (logger, Some(record))
            },
        }
    }

    /// The log file, if there is one.
    pub fn path(&self) -> (path: Option<FilePath>)
        ensures
            path::optional_path(path) == self@.path,
    {
        match &self.path {
            Some(path) => Some(path.clone()),
            None => None,
        }
    }
}

/// A list of `values` under `title`.
pub open spec fn list_lines(title: Seq<char>, values: Seq<Seq<char>>, tone: Tone) -> Seq<LineView> {
    seq![toned_line(title, tone)] + if values.len() == 0 {
        seq![toned_line("  none"@, Tone::Muted)]
    } else {
        item_lines(values, tone)
    }
}

/// The items of a list.
pub open spec fn item_lines(values: Seq<Seq<char>>, tone: Tone) -> Seq<LineView> {
    values.map_values(|value: Seq<char>| toned_line("  - "@ + value, tone))
}

/// The line that tells where the log is, with its path as text.
pub open spec fn log_line(shown_path: Option<Seq<char>>) -> LineView {
    match shown_path {
        Some(path) => toned_line("Log: "@ + path, Tone::Muted),
        None => toned_line("Log: unavailable"@, Tone::Failure),
    }
}

/// A summary, but for the line that tells where the log is.
pub open spec fn result_lines(summary: SummaryView, dry_run: bool) -> Seq<LineView> {
    seq![plain_line(""@), toned_line("Summary"@, Tone::Header)] + (if dry_run {
        list_lines("Would run:"@, summary.successes, Tone::Muted)
    } else {
        list_lines("Succeeded:"@, summary.successes, Tone::Success)
    }) + list_lines("Failed:"@, summary.failures, Tone::Failure) + list_lines(
        "Skipped:"@,
        summary.skipped,
        Tone::Skipped,
    )
}

/// A summary.
pub open spec fn summary_lines(summary: SummaryView, dry_run: bool) -> Seq<LineView> {
    result_lines(summary, dry_run).push(
        log_line(
            match summary.log_path {
                Some(path) => Some(text::lossy_text(path)),
                None => None,
            },
        ),
    )
}

/// Adds a list of `values` under `title`.
pub fn print_list(logger: &mut Logger, title: &str, values: &Vec<String>, tone: Tone)
    ensures
        final(logger)@ == old(logger)@.with_lines(
            list_lines(title@, text::string_views(values@), tone),
        ),
{
    let ghost views = text::string_views(values@);
    let ghost head = seq![toned_line(title@, tone)];
    logger.line_colored(title, tone);
    if values.len() == 0 {
        proof {
            lines_follow_each_other(
                old(logger)@,
                head,
                seq![toned_line("  none"@, Tone::Muted)],
            );
        }
        logger.line_colored("  none", Tone::Muted);
        return;
    }
    proof {
        assert(head + item_lines(views.take(0), tone) =~= head);
    }
    for i in 0..values.len()
        invariant
            views == text::string_views(values@),
            head == seq![toned_line(title@, tone)],
            logger@ == old(logger)@.with_lines(head + item_lines(views.take(i as int), tone)),
    {
        let line = "  - ".to_string().concat(values[i].as_str());
        proof {
            let so_far = head + item_lines(views.take(i as int), tone);
            let next = seq![toned_line(line@, tone)];
            lines_follow_each_other(old(logger)@, so_far, next);
            assert(so_far + next =~= head + item_lines(views.take(i + 1), tone));
        }
        logger.line_colored(line.as_str(), tone);
    }
    assert(views.take(views.len() as int) =~= views);
}

/// Adds the line that tells where the log is, with its path as text.
pub fn print_log_path(logger: &mut Logger, shown_path: &Option<String>)
    ensures
        final(logger)@ == old(logger)@.with_lines(
            seq![
                log_line(
                    match shown_path {
                        Some(path) => Some(path@),
                        None => None,
                    },
                ),
            ],
        ),
{
    match shown_path {
        Some(path) => logger.line_colored(
            "Log: ".to_string().concat(path.as_str()).as_str(),
            Tone::Muted,
        ),
        None => logger.line_colored("Log: unavailable", Tone::Failure),
    }
}

/// Adds `summary`, but for the line that tells where the log is.
pub fn print_results(logger: &mut Logger, summary: &RunSummary, dry_run: bool)
    ensures
        final(logger)@ == old(logger)@.with_lines(result_lines(summary@, dry_run)),
{
    let ghost start = logger@;
    let ghost mut lines = seq![plain_line(""@)];
    logger.line("");
    proof {
        let next = seq![toned_line("Summary"@, Tone::Header)];
        lines_follow_each_other(start, lines, next);
        assert(lines + next =~= seq![plain_line(""@), toned_line("Summary"@, Tone::Header)]);
        lines = lines + next;
    }
    logger.line_colored("Summary", Tone::Header);
    if dry_run {
        proof {
            let next = list_lines("Would run:"@, summary@.successes, Tone::Muted);
            lines_follow_each_other(start, lines, next);
            lines = lines + next;
        }
        print_list(logger, "Would run:", &summary.successes, Tone::Muted);
    } else {
        proof {
            let next = list_lines("Succeeded:"@, summary@.successes, Tone::Success);
            lines_follow_each_other(start, lines, next);
            lines = lines + next;
        }
        print_list(logger, "Succeeded:", &summary.successes, Tone::Success);
    }
    proof {
        let next = list_lines("Failed:"@, summary@.failures, Tone::Failure);
        let last = list_lines("Skipped:"@, summary@.skipped, Tone::Skipped);
        lines_follow_each_other(start, lines, next);
        lines_follow_each_other(start, lines + next, last);
    }
    print_list(logger, "Failed:", &summary.failures, Tone::Failure);
    print_list(logger, "Skipped:", &summary.skipped, Tone::Skipped);
}

/// Adds `summary`.
pub fn print_summary(logger: &mut Logger, summary: &RunSummary, dry_run: bool)
    ensures
        final(logger)@ == old(logger)@.with_lines(summary_lines(summary@, dry_run)),
{
    let ghost start = logger@;
    let ghost results = result_lines(summary@, dry_run);
    print_results(logger, summary, dry_run);
    let shown_path = match &summary.log_path {
        Some(path) => Some(path.display()),
        None => None,
    };
    proof {
        let all = summary_lines(summary@, dry_run);
        lines_follow_each_other(start, results, seq![all.last()]);
        assert(results + seq![all.last()] =~= all);
    }
    print_log_path(logger, &shown_path);
}

/// Every line is written, in its order and on a line of its own: as it is in the log
/// file, and in its colours on the terminal.
pub proof fn every_line_is_written(
    lines: Seq<LineView>,
    plain: Seq<Seq<char>>,
    terminal: Seq<Seq<char>>,
)
    requires
        plain.len() == lines.len(),
        terminal.len() == lines.len(),
        forall|i: int| 0 <= i < lines.len() ==> #[trigger] plain[i] == lines[i].plain.push('\n'),
        forall|i: int|
            0 <= i < lines.len() ==> #[trigger] terminal[i] == lines[i].terminal.push('\n'),
    ensures
        plain_text(lines) == plain.flatten(),
        terminal_text(lines) == terminal.flatten(),
    decreases lines.len(),
{
    reveal_strlit("\n");
    assert("\n"@ =~= seq!['\n']);
    if lines.len() > 0 {
        let front = lines.drop_last();
        every_line_is_written(front, plain.drop_last(), terminal.drop_last());
        assert(plain =~= plain.drop_last().push(plain.last()));
        assert(terminal =~= terminal.drop_last().push(terminal.last()));
        plain.drop_last().lemma_flatten_push(plain.last());
        terminal.drop_last().lemma_flatten_push(terminal.last());
        assert(plain.last() == plain[lines.len() - 1]);
        assert(terminal.last() == terminal[lines.len() - 1]);
        assert(plain_text(lines) =~= plain.flatten());
        assert(terminal_text(lines) =~= terminal.flatten());
    }
}

/// What is written is added behind what was: to the log file if there is one, and to
/// the terminal unless it is meant for the log file alone. The log file stays the one
/// that it is.
pub proof fn writing_adds_at_the_end(
    logger: LoggerView,
    text: Seq<char>,
    lines: Seq<LineView>,
)
    ensures
        logger.written(text).terminal == logger.terminal,
        logger.emitted(text).terminal == logger.terminal + text,
        logger.with_lines(lines).terminal == logger.terminal + terminal_text(lines),
        logger.path is Some ==> {
            &&& logger.written(text).file == logger.file + text
            &&& logger.emitted(text).file == logger.file + text
            &&& logger.with_lines(lines).file == logger.file + plain_text(lines)
        },
        logger.path is None ==> {
            &&& logger.written(text).file == logger.file
            &&& logger.emitted(text).file == logger.file
            &&& logger.with_lines(lines).file == logger.file
        },
        logger.written(text).path == logger.path,
        logger.emitted(text).path == logger.path,
        logger.with_lines(lines).path == logger.path,
{
}

/// A line reads the same in the log file whatever its tone is, and on the terminal it
/// is that text in the tone, or the text itself where it has none.
pub proof fn a_line_keeps_its_text(text: Seq<char>, tone: Tone)
    ensures
        plain_line(text).plain == text,
        plain_line(text).terminal == text,
        toned_line(text, tone).plain == text,
        toned_line(text, tone).terminal == style::styled_text(text, tone),
{
}

/// A list has one line for its title and one for each value, in their order, behind a
/// dash; where there is no value, one line says so.
pub proof fn a_list_has_every_value(title: Seq<char>, values: Seq<Seq<char>>, tone: Tone)
    ensures
        ({
            let lines = list_lines(title, values, tone);
            &&& lines[0] == toned_line(title, tone)
            &&& values.len() > 0 ==> lines.len() == values.len() + 1
            &&& forall|i: int|
                0 <= i < values.len() ==> #[trigger] lines[i + 1] == toned_line(
                    seq![' ', ' ', '-', ' '] + values[i],
                    tone,
                )
            &&& values.len() == 0 ==> lines.len() == 2 && lines[1] == toned_line(
                seq![' ', ' ', 'n', 'o', 'n', 'e'],
                Tone::Muted,
            )
        }),
{
    reveal_strlit("  - ");
    reveal_strlit("  none");
    assert("  - "@ =~= seq![' ', ' ', '-', ' ']);
    assert("  none"@ =~= seq![' ', ' ', 'n', 'o', 'n', 'e']);
}

/// How many lines a list of `count` values has behind its title.
pub open spec fn rows(count: nat) -> int {
    if count == 0 {
        1
    } else {
        count as int
    }
}

/// A summary has, behind a heading, all that was done, all that failed and all that was
/// left out, each on a line of its own under its title, and then where the log is. A
/// dry run only calls the first list by another name.
pub proof fn a_summary_has_every_step(summary: SummaryView, dry_run: bool)
    ensures
        ({
            let lines = summary_lines(summary, dry_run);
            let done = summary.successes;
            let failed: int = 3 + rows(done.len());
            let skipped: int = failed + 1 + rows(summary.failures.len());
            let end: int = skipped + 1 + rows(summary.skipped.len());
            let tone = if dry_run {
                Tone::Muted
            } else {
                Tone::Success
            };
            &&& lines.len() == end + 1
            &&& lines[0] == plain_line(Seq::empty())
            &&& lines[1] == toned_line("Summary"@, Tone::Header)
            &&& lines[2] == toned_line(
                if dry_run {
                    "Would run:"@
                } else {
                    "Succeeded:"@
                },
                tone,
            )
            &&& forall|i: int|
                0 <= i < done.len() ==> lines[3 + i] == toned_line(
                    seq![' ', ' ', '-', ' '] + #[trigger] done[i],
                    tone,
                )
            &&& lines[failed] == toned_line("Failed:"@, Tone::Failure)
            &&& forall|i: int|
                0 <= i < summary.failures.len() ==> lines[failed + 1 + i] == toned_line(
                    seq![' ', ' ', '-', ' '] + #[trigger] summary.failures[i],
                    Tone::Failure,
                )
            &&& lines[skipped] == toned_line("Skipped:"@, Tone::Skipped)
            &&& forall|i: int|
                0 <= i < summary.skipped.len() ==> lines[skipped + 1 + i] == toned_line(
                    seq![' ', ' ', '-', ' '] + #[trigger] summary.skipped[i],
                    Tone::Skipped,
                )
            &&& lines[end] == match summary.log_path {
                Some(path) => toned_line("Log: "@ + text::lossy_text(path), Tone::Muted),
                None => toned_line("Log: unavailable"@, Tone::Failure),
            }
            &&& done.len() == 0 ==> lines[3] == toned_line("  none"@, Tone::Muted)
            &&& summary.failures.len() == 0 ==> lines[failed + 1] == toned_line(
                "  none"@,
                Tone::Muted,
            )
            &&& summary.skipped.len() == 0 ==> lines[skipped + 1] == toned_line(
                "  none"@,
                Tone::Muted,
            )
        }),
{
    let tone = if dry_run {
        Tone::Muted
    } else {
        Tone::Success
    };
    let title = if dry_run {
        "Would run:"@
    } else {
        "Succeeded:"@
    };
    let a = list_lines(title, summary.successes, tone);
    let b = list_lines("Failed:"@, summary.failures, Tone::Failure);
    let c = list_lines("Skipped:"@, summary.skipped, Tone::Skipped);
    let lines = summary_lines(summary, dry_run);
    reveal_strlit("");
    reveal_strlit("  none");
    assert(""@ =~= Seq::<char>::empty());
    assert("  none"@ =~= seq![' ', ' ', 'n', 'o', 'n', 'e']);
    a_list_has_every_value(title, summary.successes, tone);
    a_list_has_every_value("Failed:"@, summary.failures, Tone::Failure);
    a_list_has_every_value("Skipped:"@, summary.skipped, Tone::Skipped);
    let failed: int = 2int + a.len();
    let skipped: int = failed + b.len();
    assert(lines.len() == skipped + c.len() + 1);
    assert forall|i: int| 0 <= i < a.len() implies lines[2 + i] == a[i] by {}
    assert forall|i: int| 0 <= i < b.len() implies lines[failed + i] == b[i] by {}
    assert forall|i: int| 0 <= i < c.len() implies lines[skipped + i] == c[i] by {}
    assert forall|i: int| 0 <= i < summary.successes.len() implies lines[3 + i] == toned_line(
        seq![' ', ' ', '-', ' '] + #[trigger] summary.successes[i],
        tone,
    ) by {
        assert(lines[2 + (i + 1)] == a[i + 1]);
    }
    assert forall|i: int| 0 <= i < summary.failures.len() implies lines[failed + 1 + i]
        == toned_line(seq![' ', ' ', '-', ' '] + #[trigger] summary.failures[i], Tone::Failure) by {
        assert(lines[failed + (i + 1)] == b[i + 1]);
    }
    assert forall|i: int| 0 <= i < summary.skipped.len() implies lines[skipped + 1 + i]
        == toned_line(seq![' ', ' ', '-', ' '] + #[trigger] summary.skipped[i], Tone::Skipped) by {
        assert(lines[skipped + (i + 1)] == c[i + 1]);
    }
    assert(lines[2] == a[0]);
    assert(lines[3] == a[1]);
    assert(lines[failed] == b[0]);
    assert(lines[failed + 1] == b[1]);
    assert(lines[skipped] == c[0]);
    assert(lines[skipped + 1] == c[1]);
}

/// The log file of a run lies in the directory of logs below the home directory, under
/// the name of the time at which the run began.
pub proof fn the_log_lies_below_home(
    plan: LogPlanView,
    home: Seq<u8>,
    now: LocalTime,
    later: LocalTime,
)
    requires
        is_plan(plan, home, now, later),
    ensures
        plan.dir == path::path_join(
            path::path_join(
                path::path_join(home, utf8::encode_utf8("Library"@)),
                utf8::encode_utf8("Logs"@),
            ),
            utf8::encode_utf8("daily-ups"@),
        ),
        plan.path == path::path_join(plan.dir, utf8::encode_utf8(now.stamp() + ".log"@)),
        exists|cutoff: LocalTime|
            #[trigger] later.is_days_after(cutoff, 7) && plan.cutoff == cutoff.stamp() + ".log"@,
{
    let none = Seq::<Seq<char>>::empty();
    path::each_part_leads_one_step_below(home, none, "Library"@);
    path::each_part_leads_one_step_below(home, none.push("Library"@), "Logs"@);
    path::each_part_leads_one_step_below(
        home,
        none.push("Library"@).push("Logs"@),
        "daily-ups"@,
    );
    assert(none.push("Library"@).push("Logs"@).push("daily-ups"@) =~= seq![
        "Library"@,
        "Logs"@,
        "daily-ups"@,
    ]);
    let cutoff = choose|cutoff: LocalTime|
        #[trigger] later.is_days_after(cutoff, clock::LOG_RETENTION_DAYS as int) && plan.cutoff
            == cutoff.log_name();
    assert(later.is_days_after(cutoff, 7));
}

/// That there is no log file is recorded as a failure of the logging, with the directory
/// and the error.
pub proof fn a_missing_log_is_recorded(shown_dir: Seq<char>, error: Seq<char>)
    ensures
        missing_log(shown_dir, error) == (RecordView {
            name: "Logging"@,
            status: StatusView::Failure(
                "could not create log file under "@ + shown_dir + ": "@ + error,
            ),
        }),
{
}

} // verus!
