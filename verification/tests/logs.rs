use daily_ups::clock::{LocalTime, log_name_at, retention_cutoff_log_name, timestamp_at};
use daily_ups::logger::{
    LogPlan, LogText, Logger, log_failure, print_list, print_log_path, print_results,
    print_summary,
};
use daily_ups::path::FilePath;
use daily_ups::retention::{LogEntry, is_daily_log_name, prune_old_logs};
use daily_ups::style::{Tone, styled};
use daily_ups::text::{count_lines, decimal, ends_with_newline, integer};
use daily_ups::{RunSummary, StepStatus};

fn at(year: i32, month: u8, day: u8, hour: u8, minute: u8, second: u8) -> LocalTime {
    LocalTime::new(year, month, day, hour, minute, second).expect("the calendar has this time")
}

fn path(text: &str) -> FilePath {
    FilePath { bytes: text.as_bytes().to_vec() }
}

fn plan(home: &str) -> LogPlan {
    let now = at(2026, 6, 26, 10, 0, 0);
    LogPlan::new(&path(home), now, now).expect("times can be written")
}

fn logger() -> Logger {
    Logger::new(plan("/home/me"), Ok(())).0
}

fn file(name: &str) -> LogEntry {
    LogEntry { name: Some(name.to_string()), is_file: true }
}

#[test]
fn prunes_logs_older_than_cutoff() {
    let old_log = "2026-06-18_10-00-00.log";
    let cutoff_log = "2026-06-19_10-00-00.log";
    let new_log = "2026-06-20_10-00-00.log";
    let other_log = "notes.log";
    let entries = vec![file(old_log), file(cutoff_log), file(new_log), file(other_log)];

    let removed = prune_old_logs(&entries, "2026-06-19_10-00-00.log");

    assert!(removed.contains(&old_log.to_string()));
    assert!(!removed.contains(&cutoff_log.to_string()));
    assert!(!removed.contains(&new_log.to_string()));
    assert!(!removed.contains(&other_log.to_string()));
}

#[test]
fn only_files_with_text_names_are_pruned() {
    let entries = vec![
        LogEntry { name: Some("2026-06-18_10-00-00.log".to_string()), is_file: false },
        LogEntry { name: None, is_file: true },
        file("2026-06-17_10-00-00.log"),
        file("2026-06-16_10-00-00.log"),
    ];

    assert_eq!(
        prune_old_logs(&entries, "2026-06-19_10-00-00.log"),
        ["2026-06-17_10-00-00.log", "2026-06-16_10-00-00.log"]
    );
}

#[test]
fn log_names_have_one_form() {
    assert!(is_daily_log_name("2026-06-18_10-00-00.log"));
    assert!(is_daily_log_name("9999-99-99_99-99-99.log"));
    for name in [
        "",
        "2026-06-18_10-00-00.lo",
        "2026-06-18_10-00-00.logs",
        "2026-06-18-10-00-00.log",
        "2026_06-18_10-00-00.log",
        "2026-06-18_10-00-0x.log",
        "2026-06-18_10-00-00.txt",
        "-026-06-18_10-00-00.log",
        "2026-06-18_10-00-0\u{661}.log",
    ] {
        assert!(!is_daily_log_name(name));
    }
}

#[test]
fn a_time_is_written_in_digits() {
    assert_eq!(timestamp_at(at(2026, 6, 9, 1, 2, 3)).unwrap(), "2026-06-09_01-02-03");
    assert_eq!(timestamp_at(at(7, 12, 31, 23, 59, 59)).unwrap(), "0007-12-31_23-59-59");
    assert_eq!(timestamp_at(at(-44, 3, 15, 0, 0, 0)).unwrap(), "-0044-03-15_00-00-00");
    assert_eq!(log_name_at(at(2026, 6, 9, 1, 2, 3)).unwrap(), "2026-06-09_01-02-03.log");
    assert!(is_daily_log_name(&log_name_at(at(0, 1, 1, 0, 0, 0)).unwrap()));
    assert!(!is_daily_log_name(&log_name_at(at(-1, 1, 1, 0, 0, 0)).unwrap()));
}

#[test]
fn logs_are_kept_for_seven_days() {
    let cutoff = |time| retention_cutoff_log_name(time).unwrap();

    assert_eq!(cutoff(at(2026, 6, 26, 10, 20, 30)), "2026-06-19_10-20-30.log");
    assert_eq!(cutoff(at(2024, 3, 3, 0, 0, 0)), "2024-02-25_00-00-00.log");
    assert_eq!(cutoff(at(2023, 3, 3, 0, 0, 0)), "2023-02-24_00-00-00.log");
    assert_eq!(cutoff(at(2026, 1, 7, 12, 0, 0)), "2025-12-31_12-00-00.log");
    assert_eq!(cutoff(at(2000, 3, 1, 0, 0, 0)), "2000-02-23_00-00-00.log");
}

#[test]
fn log_names_sort_like_times() {
    let names: Vec<String> = [
        at(999, 12, 31, 23, 59, 59),
        at(1000, 1, 1, 0, 0, 0),
        at(2026, 6, 9, 1, 2, 3),
        at(2026, 6, 10, 1, 2, 3),
    ]
    .iter()
    .map(|time| log_name_at(*time).unwrap())
    .collect();

    for pair in names.windows(2) {
        assert_eq!(prune_old_logs(&vec![file(&pair[0])], &pair[1]), [pair[0].clone()]);
        assert!(prune_old_logs(&vec![file(&pair[1])], &pair[0]).is_empty());
        assert!(prune_old_logs(&vec![file(&pair[0])], &pair[0]).is_empty());
    }
}

#[test]
fn the_calendar_refuses_what_it_does_not_have() {
    assert!(LocalTime::new(2024, 2, 29, 0, 0, 0).is_some());
    assert!(LocalTime::new(2000, 2, 29, 0, 0, 0).is_some());
    assert!(LocalTime::new(2023, 2, 29, 0, 0, 0).is_none());
    assert!(LocalTime::new(1900, 2, 29, 0, 0, 0).is_none());
    assert!(LocalTime::new(2026, 4, 31, 0, 0, 0).is_none());
    assert!(LocalTime::new(2026, 13, 1, 0, 0, 0).is_none());
    assert!(LocalTime::new(2026, 0, 1, 0, 0, 0).is_none());
    assert!(LocalTime::new(2026, 1, 0, 0, 0, 0).is_none());
    assert!(LocalTime::new(2026, 1, 1, 24, 0, 0).is_none());
    assert!(LocalTime::new(2026, 1, 1, 0, 60, 0).is_none());
    assert!(LocalTime::new(2026, 1, 1, 0, 0, 60).is_none());
    assert!(LocalTime::new(10000, 1, 1, 0, 0, 0).is_none());
    assert!(LocalTime::new(-9999, 1, 1, 0, 0, 0).is_some());
    assert!(LocalTime::new(-10000, 1, 1, 0, 0, 0).is_none());
}

#[test]
fn each_tone_has_its_look() {
    assert_eq!(styled("x", Tone::Header), "\u{1b}[36m\u{1b}[1mx\u{1b}[0m\u{1b}[39m");
    assert_eq!(styled("x", Tone::Success), "\u{1b}[32mx\u{1b}[39m");
    assert_eq!(styled("x", Tone::Failure), "\u{1b}[31mx\u{1b}[39m");
    assert_eq!(styled("x", Tone::Skipped), "\u{1b}[33mx\u{1b}[39m");
    assert_eq!(styled("x", Tone::Muted), "\u{1b}[2mx\u{1b}[0m");
    assert_eq!(styled("", Tone::Muted), "\u{1b}[2m\u{1b}[0m");
}

#[test]
fn the_log_goes_below_the_home_directory() {
    let plan = plan("/home/me");

    assert_eq!(*plan.dir(), path("/home/me/Library/Logs/daily-ups"));
    assert_eq!(*plan.path(), path("/home/me/Library/Logs/daily-ups/2026-06-26_10-00-00.log"));
    assert_eq!(plan.cutoff(), "2026-06-19_10-00-00.log");
}

#[test]
fn unavailable_log_path_is_reported_as_failure() {
    let (_logger, failure) =
        Logger::new(plan("/home/me/not-a-directory"), Err("Not a directory".to_string()));

    assert!(matches!(
        failure.map(|record| record.status),
        Some(StepStatus::Failure(_))
    ));
}

#[test]
fn a_missing_log_names_directory_and_error() {
    let (logger, failure) = Logger::new(plan("/h\u{e4}"), Err("denied".to_string()));
    let record = failure.expect("there is no log");

    assert_eq!(record, log_failure("/h\u{e4}/Library/Logs/daily-ups", "denied"));
    assert_eq!(record.name, "Logging");
    assert_eq!(
        record.status,
        StepStatus::Failure(
            "could not create log file under /h\u{e4}/Library/Logs/daily-ups: denied".to_string()
        )
    );
    assert_eq!(logger.path(), None);
}

#[test]
fn lines_go_to_terminal_and_file() {
    let mut logger = logger();
    logger.line("plain");
    logger.line_colored("muted", Tone::Muted);
    logger.line_with_terminal("file", "screen");
    logger.emit("both");
    logger.write_log("hidden");

    assert_eq!(
        logger.take_text(),
        LogText {
            terminal: "plain\n\u{1b}[2mmuted\u{1b}[0m\nscreen\nboth".to_string(),
            file: "plain\nmuted\nfile\nbothhidden".to_string(),
        }
    );
    assert_eq!(
        logger.take_text(),
        LogText { terminal: String::new(), file: String::new() }
    );
    assert!(logger.path().is_some());
}

#[test]
fn without_a_log_file_only_the_terminal_is_written() {
    let (mut logger, _) = Logger::new(plan("/home/me"), Err("no".to_string()));
    logger.line("plain");
    logger.emit("both");
    logger.write_log("hidden");

    assert_eq!(
        logger.take_text(),
        LogText { terminal: "plain\nboth".to_string(), file: String::new() }
    );
}

#[test]
fn a_list_is_never_empty() {
    let mut logger = logger();
    print_list(&mut logger, "Failed:", &vec![], Tone::Failure);
    print_list(
        &mut logger,
        "Skipped:",
        &vec!["a".to_string(), "b".to_string()],
        Tone::Skipped,
    );

    let text = logger.take_text();
    assert_eq!(text.file, "Failed:\n  none\nSkipped:\n  - a\n  - b\n");
    assert_eq!(
        text.terminal,
        "\u{1b}[31mFailed:\u{1b}[39m\n\u{1b}[2m  none\u{1b}[0m\n\
         \u{1b}[33mSkipped:\u{1b}[39m\n\u{1b}[33m  - a\u{1b}[39m\n\u{1b}[33m  - b\u{1b}[39m\n"
    );
}

#[test]
fn a_summary_tells_where_the_log_is() {
    let mut summary = RunSummary {
        successes: vec!["Rust".to_string()],
        failures: vec![],
        skipped: vec!["project: lrs: 1 local change(s)".to_string()],
        log_path: Some(path("/tmp/x.log")),
    };
    let mut logger = logger();

    print_summary(&mut logger, &summary, false);
    let with_log = logger.take_text();
    assert_eq!(
        with_log.file,
        "\nSummary\nSucceeded:\n  - Rust\nFailed:\n  none\nSkipped:\n  \
         - project: lrs: 1 local change(s)\nLog: /tmp/x.log\n"
    );
    assert!(with_log.terminal.ends_with("\u{1b}[2mLog: /tmp/x.log\u{1b}[0m\n"));
    assert!(with_log.terminal.contains("\u{1b}[32mSucceeded:\u{1b}[39m\n"));

    summary.log_path = None;
    print_summary(&mut logger, &summary, true);
    let without_log = logger.take_text();
    assert_eq!(
        without_log.file,
        "\nSummary\nWould run:\n  - Rust\nFailed:\n  none\nSkipped:\n  \
         - project: lrs: 1 local change(s)\nLog: unavailable\n"
    );
    assert!(without_log.terminal.ends_with("\u{1b}[31mLog: unavailable\u{1b}[39m\n"));
    assert!(without_log.terminal.contains("\u{1b}[2mWould run:\u{1b}[0m\n"));

    print_results(&mut logger, &summary, true);
    print_log_path(&mut logger, &None);
    assert_eq!(logger.take_text(), without_log);
}

#[test]
fn numbers_are_decimal() {
    assert_eq!(decimal(0), "0");
    assert_eq!(decimal(10), "10");
    assert_eq!(decimal(u64::MAX), "18446744073709551615");
    assert_eq!(integer(-1), "-1");
    assert_eq!(integer(i32::MAX), "2147483647");
}

#[test]
fn lines_are_counted_with_the_last() {
    assert_eq!(count_lines(""), 0);
    assert_eq!(count_lines("\n"), 1);
    assert_eq!(count_lines(" M a"), 1);
    assert_eq!(count_lines(" M a\n?? b\n"), 2);
    assert_eq!(count_lines(" M a\r\n\n?? b"), 3);
    assert!(ends_with_newline("a\n"));
    assert!(!ends_with_newline(""));
    assert!(!ends_with_newline("\na"));
}
