use daily_ups::clock::LocalTime;
use daily_ups::command::{CommandSpec, ProcessOutcome};
use daily_ups::path::FilePath;
use daily_ups::project::{DirectoryCheck, Passage};
use daily_ups::run::{Report, Session};
use daily_ups::sequence::{CommandRun, CommandStep};
use daily_ups::work::WorkOutput;
use daily_ups::{Cli, run_with_home};

const HOME: &str = "/home/me";

fn at(second: u8) -> LocalTime {
    LocalTime::new(2026, 6, 26, 10, 0, second).expect("the calendar has this time")
}

fn begin(cli: Cli, opened: Result<(), String>) -> Session {
    let home = FilePath { bytes: HOME.as_bytes().to_vec() };
    let setup = run_with_home(cli, home)
        .expect("there are jobs")
        .plan_log(at(0), at(1))
        .expect("times can be written");
    assert_eq!(
        setup.plan().path().display(),
        "/home/me/Library/Logs/daily-ups/2026-06-26_10-00-00.log"
    );
    assert_eq!(setup.plan().cutoff(), "2026-06-19_10-00-01.log");
    setup.begin(opened, at(2)).expect("times can be written")
}

/// A machine: which directories it has, and which programs fail on it.
struct Machine {
    has_directories: bool,
    broken: &'static str,
}

impl Machine {
    fn execute(&self, command: &CommandSpec) -> ProcessOutcome {
        let success = command.program != self.broken;
        ProcessOutcome::Exited {
            success,
            code: Some(if success { 0 } else { 1 }),
            stdout: b"done\n".to_vec(),
            stderr: vec![],
        }
    }

    fn go_through(&self, run: CommandRun) -> WorkOutput {
        let mut step = CommandStep::Continue(run);
        loop {
            step = match step {
                CommandStep::Continue(run) => run.next(),
                CommandStep::Execute(pending) => {
                    let outcome = self.execute(&pending.command());
                    pending.completed(&outcome)
                }
                CommandStep::Finished(output) => return output,
            };
        }
    }

    fn git(&self) -> ProcessOutcome {
        ProcessOutcome::Exited { success: true, code: Some(0), stdout: vec![], stderr: vec![] }
    }

    fn update(&self, check: DirectoryCheck) -> WorkOutput {
        let check = match check.answered(self.has_directories) {
            Passage::Open(check) => check,
            Passage::Closed(output) => return output,
        };
        let check = match check.answered(&self.git()) {
            Passage::Open(check) => check,
            Passage::Closed(output) => return output,
        };
        match check.answered(&self.git()) {
            Passage::Open(run) => self.go_through(run),
            Passage::Closed(output) => output,
        }
    }

    fn work(&self, session: &Session) -> Vec<WorkOutput> {
        let phase = session.workflow();
        let joined = (0..phase.groups().len())
            .rev()
            .map(|place| Some((place, self.go_through(phase.start(place)))))
            .collect();
        let phase = phase.joined(joined);
        let workers = phase.worker_count();
        let (mut queue, join) = phase.hand_out();
        let mut done = vec![];
        while let Some((place, check)) = queue.next_project() {
            done.push((place, self.update(check)));
        }
        let mut joined = vec![Some(done)];
        joined.resize(workers, Some(vec![]));
        join.joined(joined)
    }

    fn run(&self, cli: Cli, opened: Result<(), String>) -> Report {
        let session = begin(cli, opened);
        let outputs = self.work(&session);
        session.finish(outputs)
    }
}

const BARE: Machine = Machine { has_directories: false, broken: "" };
const WHOLE: Machine = Machine { has_directories: true, broken: "" };

#[test]
fn dry_run_with_missing_project_dirs_skips_projects() {
    let cli = Cli {
        dry_run: true,
        deep: false,
        jobs: 2,
        verbose_log: false,
    };

    let summary = BARE.run(cli, Ok(())).summary;

    assert_eq!(summary.skipped.len(), 5);
    assert_eq!(summary.exit_code(), 1);
    assert_eq!(summary.successes.len(), 7);
}

#[test]
fn a_run_begins_with_its_plan() {
    let cli = Cli { dry_run: false, deep: true, jobs: 12, verbose_log: true };
    let mut session = begin(cli, Ok(()));

    let text = session.take_text();

    assert_eq!(
        text.file,
        "daily-ups\nstarted: 2026-06-26_10-00-02\nMode: deep, project jobs: 12, verbose log\n\
         \n\nUpdate order\n  - Homebrew\n  - Rust\n  - Node\n  - Global skills\n  - .NET tools\n  \
         - Cargo tools\n  - Go tools\n  - Projects after toolchains (jobs: 12)\n"
    );
    assert!(text.terminal.starts_with(
        "\u{1b}[36m\u{1b}[1mdaily-ups\u{1b}[0m\u{1b}[39m\nstarted: 2026-06-26_10-00-02\n\
         \u{1b}[2mMode: deep, project jobs: 12, verbose log\u{1b}[0m\n\n\n"
    ));
    assert_eq!(session.take_text().terminal, "");
}

#[test]
fn the_mode_is_told() {
    let mode = |dry_run: bool, deep: bool| {
        let cli = Cli { dry_run, deep, jobs: 4, verbose_log: false };
        let text = begin(cli, Ok(())).take_text().file;
        text.lines().nth(2).expect("the mode is the third line").to_string()
    };

    assert_eq!(mode(false, false), "Mode: default, project jobs: 4");
    assert_eq!(mode(false, true), "Mode: deep, project jobs: 4");
    assert_eq!(mode(true, false), "Mode: dry-run, project jobs: 4");
    assert_eq!(mode(true, true), "Mode: dry-run, project jobs: 4");
}

#[test]
fn a_run_succeeds_if_everything_does() {
    let cli = Cli { dry_run: false, deep: false, jobs: 4, verbose_log: false };

    let summary = WHOLE.run(cli, Ok(())).summary;

    assert_eq!(summary.exit_code(), 0);
    assert_eq!(summary.successes.len(), 12);
    assert_eq!(summary.successes[0], "Homebrew");
    assert_eq!(summary.successes[7], "project: lrs");
    assert_eq!(
        summary.log_path.map(|path| path.display()),
        Some("/home/me/Library/Logs/daily-ups/2026-06-26_10-00-00.log".to_string())
    );
}

#[test]
fn one_broken_program_fails_its_steps_alone() {
    let cli = Cli { dry_run: false, deep: false, jobs: 4, verbose_log: false };

    let summary = Machine { has_directories: true, broken: "cargo" }.run(cli, Ok(())).summary;

    assert_eq!(summary.exit_code(), 1);
    assert_eq!(
        summary.failures,
        [
            "Cargo tools: `cargo install-update -a` exited with 1",
            "project: lrs: `cargo update` exited with 1",
            "project: axes: `cargo update` exited with 1",
        ]
    );
    assert_eq!(summary.successes.len(), 9);
}

#[test]
fn a_missing_log_fails_the_run() {
    let cli = Cli { dry_run: false, deep: false, jobs: 4, verbose_log: false };

    let report = WHOLE.run(cli, Err("denied".to_string()));

    assert_eq!(report.summary.exit_code(), 1);
    assert_eq!(
        report.summary.failures,
        ["Logging: could not create log file under /home/me/Library/Logs/daily-ups: denied"]
    );
    assert_eq!(report.summary.log_path, None);
    assert_eq!(report.text.file, "");
    assert!(report.text.terminal.ends_with("\u{1b}[31mLog: unavailable\u{1b}[39m\n"));
}

#[test]
fn only_a_dry_run_shows_the_work() {
    let cli = |dry_run| Cli { dry_run, deep: false, jobs: 4, verbose_log: false };

    let dry = WHOLE.run(cli(true), Ok(()));
    let real = WHOLE.run(cli(false), Ok(()));

    for report in [&dry, &real] {
        assert!(report.text.file.contains("\n===> Homebrew\n> brew update\n> brew upgrade -y\nOK\n"));
        assert!(report.text.file.contains("\n===> Projects\n\n--- project: lrs\n"));
    }
    assert!(dry.text.terminal.contains("\n===> Homebrew\n> brew update\n"));
    assert!(!real.text.terminal.contains("===> Homebrew"));
    assert!(dry.text.file.contains("Would run:\n  - Homebrew\n"));
    assert!(real.text.file.contains("Succeeded:\n  - Homebrew\n"));
}

#[test]
fn a_verbose_log_keeps_what_was_printed() {
    let cli = |verbose_log| Cli { dry_run: false, deep: false, jobs: 4, verbose_log };

    assert!(WHOLE.run(cli(true), Ok(())).text.file.contains("> rustup update\ndone\nOK\n"));
    assert!(WHOLE.run(cli(false), Ok(())).text.file.contains("> rustup update\nOK\n"));
}
