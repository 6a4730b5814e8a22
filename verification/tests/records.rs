use daily_ups::path::FilePath;
use daily_ups::record::summarize;
use daily_ups::run::{home_dir, validate_jobs};
use daily_ups::{AppError, Cli, RunSummary, StepRecord, StepStatus, run, run_with_home};

fn cli(jobs: usize) -> Cli {
    Cli { dry_run: false, deep: false, jobs, verbose_log: false }
}

#[test]
fn rejects_zero_jobs() {
    assert!(matches!(validate_jobs(0), Err(AppError::InvalidJobs)));
}

#[test]
fn errors_have_their_texts() {
    assert_eq!(validate_jobs(0).unwrap_err().message(), "--jobs must be at least 1");
    assert_eq!(home_dir(None).unwrap_err().message(), "HOME is not set");
    let denied = || std::io::Error::new(std::io::ErrorKind::Other, "denied");
    assert_eq!(AppError::Io(denied()).message(), "I/O error: denied");
    assert_eq!(AppError::Io(denied()).message_with("x"), "I/O error: x");
    assert_eq!(AppError::InvalidJobs.message_with("x"), "--jobs must be at least 1");

    let missing = time::error::Format::InvalidComponent("year");
    let shown = missing.to_string();
    let error = AppError::TimeFormat(missing);
    assert_eq!(error.message(), format!("time format error: {shown}"));
    assert_eq!(error.message_with("x"), "time format error: x");

    let unknown = time::format_description::parse_borrowed::<2>("[nothing]").unwrap_err();
    let shown = unknown.to_string();
    let error = AppError::TimeFormatDescription(unknown);
    assert_eq!(error.message(), format!("time format description error: {shown}"));
    assert_eq!(error.message_with("x"), "time format description error: x");
}

#[test]
fn summaries_compare_the_log_part_by_part() {
    let with_log = |text: &str| {
        summarize(vec![], Some(FilePath { bytes: text.as_bytes().to_vec() }))
    };

    assert_eq!(with_log("/a//b.log"), with_log("/a/b.log"));
    assert_ne!(with_log("/a/b.log"), with_log("/a/c.log"));
}

#[test]
fn accepts_any_other_number_of_jobs() {
    assert!(matches!(validate_jobs(1), Ok(1)));
    assert!(matches!(validate_jobs(usize::MAX), Ok(usize::MAX)));
}

#[test]
fn a_run_needs_a_home_directory() {
    assert!(matches!(home_dir(None), Err(AppError::HomeMissing)));
    assert!(matches!(home_dir(Some(vec![])), Err(AppError::HomeMissing)));
    assert_eq!(home_dir(Some(b"/root".to_vec())).unwrap().bytes, b"/root");
    assert!(matches!(run(cli(0), None), Err(AppError::HomeMissing)));
    assert!(matches!(run(cli(0), Some(b"/root".to_vec())), Err(AppError::InvalidJobs)));
    assert!(run(cli(1), Some(b"/root".to_vec())).is_ok());
    let home = FilePath { bytes: b"".to_vec() };
    assert!(matches!(run_with_home(cli(0), home.clone()), Err(AppError::InvalidJobs)));
    assert!(run_with_home(cli(2), home).is_ok());
}

#[test]
fn a_summary_sorts_records_by_status() {
    let records = vec![
        StepRecord::success("a"),
        StepRecord::failure("b", "broken"),
        StepRecord::skipped("c", "missing"),
        StepRecord::success("d"),
        StepRecord::failure("e", ""),
    ];
    let path = FilePath { bytes: b"/log".to_vec() };

    let summary = summarize(records, Some(path.clone()));

    assert_eq!(
        summary,
        RunSummary {
            successes: vec!["a".to_string(), "d".to_string()],
            failures: vec!["b: broken".to_string(), "e: ".to_string()],
            skipped: vec!["c: missing".to_string()],
            log_path: Some(path),
        }
    );
    assert_eq!(summary.exit_code(), 1);
}

#[test]
fn the_exit_code_tells_whether_all_succeeded() {
    assert_eq!(summarize(vec![], None).exit_code(), 0);
    assert_eq!(summarize(vec![StepRecord::success("a")], None).exit_code(), 0);
    assert_eq!(summarize(vec![StepRecord::failure("a", "x")], None).exit_code(), 1);
    assert_eq!(summarize(vec![StepRecord::skipped("a", "x")], None).exit_code(), 1);
}

#[test]
fn a_record_keeps_name_and_reason() {
    let record = StepRecord::skipped("name", "reason");

    assert_eq!(record.name, "name");
    assert_eq!(record.status, StepStatus::Skipped("reason".to_string()));
    assert_eq!(StepRecord::success("n").status, StepStatus::Success);
    assert_eq!(StepRecord::failure("n", "r").status, StepStatus::Failure("r".to_string()));
}
