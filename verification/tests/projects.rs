use daily_ups::StepStatus;
use daily_ups::command::ProcessOutcome;
use daily_ups::path::FilePath;
use daily_ups::plan::{ProjectTask, rust_project_commands};
use daily_ups::project::{
    ChangeCheck, Passage, RepositoryCheck, examine_project, is_git_repository, judge_status,
    local_change_count, run_project,
};
use daily_ups::sequence::{CommandRun, CommandStep};
use daily_ups::work::WorkOutput;

fn project() -> ProjectTask {
    ProjectTask {
        name: "project: lrs",
        dir: FilePath { bytes: b"/home/me/Documents/source/rust/lrs".to_vec() },
        commands: rust_project_commands(false),
    }
}

fn exited(code: i32, stdout: &str) -> ProcessOutcome {
    ProcessOutcome::Exited {
        success: code == 0,
        code: Some(code),
        stdout: stdout.as_bytes().to_vec(),
        stderr: vec![],
    }
}

fn found() -> RepositoryCheck {
    match run_project(project(), true, false).answered(true) {
        Passage::Open(check) => check,
        Passage::Closed(output) => panic!("closed with {output:?}"),
    }
}

fn versioned() -> ChangeCheck {
    match found().answered(&exited(0, "true\n")) {
        Passage::Open(check) => check,
        Passage::Closed(output) => panic!("closed with {output:?}"),
    }
}

fn closed<T>(passage: Passage<T>) -> WorkOutput {
    match passage {
        Passage::Open(_) => panic!("the passage is open"),
        Passage::Closed(output) => output,
    }
}

fn listed(run: CommandRun) -> WorkOutput {
    let mut step = CommandStep::Continue(run);
    loop {
        step = match step {
            CommandStep::Continue(run) => run.next(),
            CommandStep::Execute(pending) => panic!("a dry run executes {:?}", pending.command()),
            CommandStep::Finished(output) => return output,
        };
    }
}

#[test]
fn dirty_project_is_skipped() {
    let output = closed(versioned().answered(&exited(0, "?? dirty.txt\n")));

    assert!(matches!(
        output.records.first().map(|record| &record.status),
        Some(StepStatus::Skipped(reason)) if reason == "1 local change(s)"
    ));
}

#[test]
fn the_log_tells_why_a_project_is_skipped() {
    let opening = "\n--- project: lrs\nDirectory: /home/me/Documents/source/rust/lrs\n";
    let missing = closed(run_project(project(), false, false).answered(false));
    let foreign = closed(found().answered(&exited(128, "")));
    let dirty = closed(versioned().counted(Ok(12)));

    assert_eq!(
        missing.log,
        format!("{opening}SKIP: missing directory: /home/me/Documents/source/rust/lrs\n")
    );
    assert_eq!(
        foreign.log,
        format!("{opening}SKIP: not a git repository: /home/me/Documents/source/rust/lrs\n")
    );
    assert_eq!(dirty.log, format!("{opening}SKIP: 12 local change(s)\n"));
    for output in [missing, foreign, dirty] {
        assert_eq!(output.records.len(), 1);
        assert_eq!(output.records[0].name, "project: lrs");
        assert!(matches!(output.records[0].status, StepStatus::Skipped(_)));
    }
}

#[test]
fn a_question_without_an_answer_is_a_failure() {
    let none = ProcessOutcome::NotStarted("not found".to_string());
    let ended = ProcessOutcome::Exited { success: false, code: None, stdout: vec![], stderr: vec![] };
    let outputs = [
        (closed(found().answered(&none)), "failed to start `git rev-parse`: not found"),
        (closed(versioned().answered(&none)), "failed to start `git status`: not found"),
        (
            closed(versioned().answered(&exited(3, ""))),
            "`git status --porcelain` exited with 3",
        ),
        (
            closed(versioned().answered(&ended)),
            "`git status --porcelain` exited with signal",
        ),
    ];

    for (output, reason) in outputs {
        assert_eq!(output.records[0].status, StepStatus::Failure(reason.to_string()));
        assert!(output.log.ends_with(&format!("FAIL: {reason}\n")));
    }
}

#[test]
fn a_clean_repository_is_updated_in_its_directory() {
    let check = versioned();
    assert_eq!(check.question(), ["status", "--porcelain"]);
    assert_eq!(*check.directory(), project().dir);
    assert_eq!(found().question(), ["rev-parse", "--is-inside-work-tree"]);
    assert_eq!(*found().directory(), project().dir);
    assert_eq!(*run_project(project(), true, false).directory(), project().dir);

    let run = match check.answered(&exited(0, "")) {
        Passage::Open(run) => run,
        Passage::Closed(output) => panic!("closed with {output:?}"),
    };

    let output = listed(run);
    assert_eq!(output.records[0].status, StepStatus::Success);
    assert_eq!(
        output.log,
        "\n--- project: lrs\nDirectory: /home/me/Documents/source/rust/lrs\n\
         > cargo update\n> cargo build\nOK\n"
    );
}

#[test]
fn the_commands_of_a_project_run_in_its_directory() {
    let check = examine_project(project(), "shown".to_string(), false, false);
    let check = match check.answered(true) {
        Passage::Open(check) => check,
        Passage::Closed(output) => panic!("closed with {output:?}"),
    };
    let check = match check.answered(&exited(0, "")) {
        Passage::Open(check) => check,
        Passage::Closed(output) => panic!("closed with {output:?}"),
    };
    match check.counted(Ok(0)) {
        Passage::Open(run) => match run.next() {
            CommandStep::Execute(pending) => {
                assert_eq!(pending.directory(), Some(&project().dir));
                assert_eq!(pending.command().display(), "cargo update");
            }
            other => panic!("unexpected step: {other:?}"),
        },
        Passage::Closed(output) => panic!("closed with {output:?}"),
    }
}

#[test]
fn git_answers_by_its_exit_code() {
    assert_eq!(is_git_repository(&exited(0, "")), Ok(true));
    assert_eq!(is_git_repository(&exited(128, "true")), Ok(false));
    assert_eq!(local_change_count(&exited(0, " M a\n M b")), Ok(2));
    assert_eq!(judge_status(true, Some(0), ""), Ok(0));
    let odd = ProcessOutcome::Exited {
        success: true,
        code: Some(0),
        stdout: b"?? \xff\n".to_vec(),
        stderr: b"warning\n".to_vec(),
    };
    assert_eq!(local_change_count(&odd), Ok(1));
}
