use daily_ups::StepStatus;
use daily_ups::command::{CommandSpec, ProcessOutcome, describe_code, judge_exit, run_command};
use daily_ups::path::FilePath;
use daily_ups::sequence::{CommandRun, CommandStep, run_commands};
use daily_ups::work::WorkOutput;

fn exited(code: i32, stdout: &str, stderr: &str) -> ProcessOutcome {
    ProcessOutcome::Exited {
        success: code == 0,
        code: Some(code),
        stdout: stdout.as_bytes().to_vec(),
        stderr: stderr.as_bytes().to_vec(),
    }
}

/// Goes through a list of commands, with `outcomes` for the processes, and tells
/// how many of them were asked for.
fn go_through(run: CommandRun, outcomes: &[ProcessOutcome]) -> (WorkOutput, usize) {
    let mut used = 0;
    let mut step = CommandStep::Continue(run);
    loop {
        step = match step {
            CommandStep::Continue(run) => run.next(),
            CommandStep::Execute(pending) => {
                used += 1;
                pending.completed(&outcomes[used - 1])
            }
            CommandStep::Finished(output) => return (output, used),
        };
    }
}

const PWD: CommandSpec = CommandSpec { program: "pwd", args: &[] };

#[test]
fn default_log_omits_success_output_but_keeps_failure_output() {
    let dir_text = "/tmp/some-directory";
    let dir = FilePath { bytes: dir_text.as_bytes().to_vec() };

    let run = run_commands(
        "success",
        Some(dir.clone()),
        &vec![CommandSpec {
            program: "pwd",
            args: &[],
        }],
        false,
        false,
        String::new(),
    );
    let (success, _) = go_through(run, &[exited(0, "/tmp/some-directory\n", "")]);

    assert_eq!(success.records[0].status, StepStatus::Success);
    assert!(success.log.contains("> pwd\n"));
    assert!(success.log.contains("OK\n"));
    assert!(!success.log.contains(&dir_text));

    let run = run_commands(
        "failure",
        Some(dir),
        &vec![CommandSpec {
            program: "sh",
            args: &["-c", "pwd; exit 9"],
        }],
        false,
        false,
        String::new(),
    );
    let (failure, _) = go_through(run, &[exited(9, "/tmp/some-directory\n", "")]);

    assert!(matches!(failure.records[0].status, StepStatus::Failure(_)));
    assert!(failure.log.contains(&dir_text));
    assert!(failure.log.contains("FAIL: `sh -c pwd; exit 9` exited with 9\n"));
}

#[test]
fn verbose_log_keeps_success_output() {
    let dir_text = "/tmp/some-directory";
    let run = run_commands(
        "success",
        Some(FilePath { bytes: dir_text.as_bytes().to_vec() }),
        &vec![CommandSpec {
            program: "pwd",
            args: &[],
        }],
        false,
        true,
        String::new(),
    );
    let (output, _) = go_through(run, &[exited(0, "/tmp/some-directory\n", "")]);

    assert_eq!(output.records[0].status, StepStatus::Success);
    assert!(output.log.contains(&dir_text));
    assert_eq!(output.log, "> pwd\n/tmp/some-directory\nOK\n");
}

#[test]
fn the_first_failure_ends_a_list() {
    let commands = vec![PWD, CommandSpec { program: "false", args: &[] }, PWD];
    let run = run_commands("list", None, &commands, false, false, "begin\n".to_string());
    let outcomes = [exited(0, "x", ""), exited(1, "", "no"), exited(0, "", "")];

    let (output, used) = go_through(run, &outcomes);

    assert_eq!(used, 2);
    assert_eq!(output.records.len(), 1);
    assert_eq!(
        output.records[0].status,
        StepStatus::Failure("`false` exited with 1".to_string())
    );
    assert_eq!(output.log, "begin\n> pwd\n> false\nno\nFAIL: `false` exited with 1\n");
}

#[test]
fn commands_are_run_while_they_pass() {
    let commands = vec![PWD, PWD];
    let run = run_commands("list", None, &commands, false, true, String::new());

    let (output, used) = go_through(run, &[exited(0, "a\n", "b"), exited(0, "", "")]);

    assert_eq!(used, 2);
    assert_eq!(output.records[0].status, StepStatus::Success);
    assert_eq!(output.log, "> pwd\na\nb\n> pwd\nOK\n");
}

#[test]
fn a_dry_run_only_lists_commands() {
    let commands = vec![PWD, CommandSpec { program: "ls", args: &["-l"] }];
    let run = run_commands("list", None, &commands, true, true, String::new());
    assert_eq!(run.next_command().map(|command| command.display()), Some("pwd".to_string()));

    let (output, used) = go_through(run, &[]);

    assert_eq!(used, 0);
    assert_eq!(output.records[0].name, "list");
    assert_eq!(output.records[0].status, StepStatus::Success);
    assert_eq!(output.log, "> pwd\n> ls -l\nOK\n");
}

#[test]
fn a_command_knows_its_directory() {
    let dir = FilePath { bytes: b"/work".to_vec() };
    for place in [None, Some(dir)] {
        let run = run_commands("x", place.clone(), &vec![PWD], false, false, String::new());
        match run.next() {
            CommandStep::Execute(pending) => {
                assert_eq!(pending.directory(), place.as_ref());
                assert_eq!(pending.command().display(), "pwd");
            }
            other => panic!("unexpected step: {other:?}"),
        }
    }
}

#[test]
fn an_empty_list_succeeds() {
    let run = run_commands("x", None, &vec![], false, false, String::new());
    assert!(run.next_command().is_none());

    let (output, _) = go_through(run, &[]);

    assert_eq!(output.records[0].status, StepStatus::Success);
    assert_eq!(output.log, "OK\n");
}

#[test]
fn a_command_that_does_not_start_fails() {
    let result = run_command(&PWD, &ProcessOutcome::NotStarted("no such file".to_string()));

    let failure = result.expect_err("it did not start");
    assert_eq!(failure.reason, "failed to start `pwd`: no such file");
    assert_eq!(failure.output, "");
}

#[test]
fn a_signal_has_no_code() {
    let outcome =
        ProcessOutcome::Exited { success: false, code: None, stdout: vec![], stderr: vec![] };

    let failure = run_command(&PWD, &outcome).expect_err("it was ended");

    assert_eq!(failure.reason, "`pwd` exited with signal");
    assert_eq!(describe_code(None), "signal");
    assert_eq!(describe_code(Some(-17)), "-17");
    assert_eq!(describe_code(Some(i32::MIN)), "-2147483648");
}

#[test]
fn output_is_both_streams_in_whole_lines() {
    assert_eq!(run_command(&PWD, &exited(0, "out", "err\n")), Ok("out\nerr\n".to_string()));
    assert_eq!(run_command(&PWD, &exited(0, "", "err")), Ok("err\n".to_string()));
    assert_eq!(run_command(&PWD, &exited(0, "", "")), Ok(String::new()));
    assert_eq!(judge_exit(&PWD, true, Some(0), "a", "b"), Ok("a\nb\n".to_string()));
}

#[test]
fn output_that_is_no_text_is_replaced() {
    let outcome = ProcessOutcome::Exited {
        success: true,
        code: Some(0),
        stdout: b"a\xffb".to_vec(),
        stderr: b"\xe2\x82".to_vec(),
    };

    assert_eq!(run_command(&PWD, &outcome), Ok("a\u{fffd}b\n\u{fffd}\n".to_string()));
}
