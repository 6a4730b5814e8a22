use daily_ups::command::{CommandSpec, ProcessOutcome};
use daily_ups::join::{join_indexed_outputs, run_projects};
use daily_ups::order::sort_by_place;
use daily_ups::path::FilePath;
use daily_ups::plan::{ProjectTask, WorkGroup};
use daily_ups::project::{DirectoryCheck, Passage};
use daily_ups::sequence::{CommandRun, CommandStep};
use daily_ups::work::{WorkOutput, panic_output};
use daily_ups::workflow::{finish_bar, run_parallel, run_work_group, run_workflows};
use daily_ups::{StepRecord, StepStatus};

fn exited(success: bool) -> ProcessOutcome {
    ProcessOutcome::Exited {
        success,
        code: Some(if success { 0 } else { 1 }),
        stdout: vec![],
        stderr: vec![],
    }
}

fn output(name: &str) -> WorkOutput {
    WorkOutput::of_step(StepRecord::success(name), format!("[{name}]"))
}

fn names(outputs: &[WorkOutput]) -> Vec<String> {
    outputs
        .iter()
        .flat_map(|output| output.records.iter())
        .map(|record| record.name.clone())
        .collect()
}

/// Goes through a list of commands. `execute` runs one.
fn go_through(run: CommandRun, execute: &mut dyn FnMut(&CommandSpec) -> bool) -> WorkOutput {
    let mut step = CommandStep::Continue(run);
    loop {
        step = match step {
            CommandStep::Continue(run) => run.next(),
            CommandStep::Execute(pending) => {
                let outcome = exited(execute(&pending.command()));
                pending.completed(&outcome)
            }
            CommandStep::Finished(output) => return output,
        };
    }
}

/// Updates a project that is a clean repository. `execute` runs a command.
fn update(check: DirectoryCheck, execute: &mut dyn FnMut(&CommandSpec) -> bool) -> WorkOutput {
    let check = match check.answered(true) {
        Passage::Open(check) => check,
        Passage::Closed(output) => return output,
    };
    let check = match check.answered(&exited(true)) {
        Passage::Open(check) => check,
        Passage::Closed(output) => return output,
    };
    match check.answered(&exited(true)) {
        Passage::Open(run) => go_through(run, execute),
        Passage::Closed(output) => output,
    }
}

fn test_project(name: &'static str, args: &'static [&'static str]) -> ProjectTask {
    ProjectTask {
        name,
        dir: FilePath { bytes: b"/work".to_vec() },
        commands: vec![CommandSpec { program: "sh", args }],
    }
}

#[test]
fn project_jobs_refill_when_one_finishes() {
    const FAST: &[&str] = &["-c", "sleep 0.05"];
    const SLOW: &[&str] = &["-c", "sleep 0.5"];

    let projects = vec![
        test_project("project: slow-1", SLOW),
        test_project("project: fast-1", FAST),
        test_project("project: fast-2", FAST),
        test_project("project: fast-3", FAST),
        test_project("project: slow-2", SLOW),
    ];

    let phase = run_workflows(vec![], projects, false, false, 4).joined(vec![]);
    let workers = phase.worker_count();
    assert_eq!(workers, 4);
    let (mut queue, join) = phase.hand_out();

    // The worker that is free first takes the next project.
    let mut free_at = vec![0u64; workers];
    let mut done: Vec<Vec<(usize, WorkOutput)>> = vec![vec![]; workers];
    loop {
        let worker = (0..workers).min_by_key(|worker| free_at[*worker]).expect("there are workers");
        let (place, check) = match queue.next_project() {
            Some(next) => next,
            None => break,
        };
        let mut elapsed = 0u64;
        let output = update(check, &mut |command| {
            elapsed += if command.args == SLOW { 500 } else { 50 };
            true
        });
        free_at[worker] += elapsed;
        done[worker].push((place, output));
    }
    let elapsed = free_at.iter().copied().max().expect("there are workers");
    let outputs = join.joined(done.into_iter().map(Some).collect());
    let output = outputs.last().expect("the projects are reported");

    assert!(
        elapsed < 900,
        "projects waited for the whole first batch before refilling"
    );
    assert_eq!(output.records.len(), 5);
    assert!(
        output
            .records
            .iter()
            .all(|record| record.status == StepStatus::Success)
    );
    assert_eq!(
        names(&outputs),
        [
            "project: slow-1",
            "project: fast-1",
            "project: fast-2",
            "project: fast-3",
            "project: slow-2",
        ]
    );
}

#[test]
fn projects_start_after_tool_groups_finish() {
    let mut marker = false;
    let phase = run_workflows(
        vec![WorkGroup {
            name: "slow tool",
            commands: vec![CommandSpec {
                program: "sh",
                args: &["-c", "sleep 0.2; touch tool.done"],
            }],
        }],
        vec![ProjectTask {
            name: "project: waits",
            dir: FilePath { bytes: b"/tmp/project".to_vec() },
            commands: vec![CommandSpec {
                program: "sh",
                args: &["-c", "test -f tool.done"],
            }],
        }],
        false,
        false,
        1,
    );
    assert_eq!(phase.groups().len(), 1);
    let tool = go_through(phase.start(0), &mut |_| {
        marker = true;
        true
    });
    let phase = phase.joined(vec![Some((0, tool))]);
    assert_eq!(phase.projects().len(), 1);
    let (mut queue, join) = phase.hand_out();
    let (place, check) = queue.next_project().expect("a project waits");
    assert!(queue.next_project().is_none());
    let project = update(check, &mut |_| marker);
    let outputs = join.joined(vec![Some(vec![(place, project)])]);

    let statuses = outputs
        .into_iter()
        .flat_map(|output| output.records)
        .map(|record| record.status)
        .collect::<Vec<_>>();

    assert_eq!(statuses, vec![StepStatus::Success, StepStatus::Success]);
}

#[test]
fn outputs_come_in_the_order_of_their_places() {
    let joined = vec![
        Some((2, output("c"))),
        Some((0, output("a"))),
        Some((1, output("b"))),
    ];

    assert_eq!(names(&join_indexed_outputs(joined)), ["a", "b", "c"]);
}

#[test]
fn lost_threads_come_last() {
    let joined = vec![None, Some((1, output("b"))), None, Some((3, output("d")))];

    let outputs = join_indexed_outputs(joined);

    assert_eq!(names(&outputs), ["b", "d", "Parallel group", "Parallel group"]);
    assert_eq!(outputs[2], panic_output("Parallel group", "worker panicked"));
    assert_eq!(outputs[2].log, "\n===> Parallel group\nFAIL: worker panicked\n");
    assert_eq!(
        outputs[2].records[0].status,
        StepStatus::Failure("worker panicked".to_string())
    );
}

#[test]
fn sorting_keeps_the_order_of_one_place() {
    let items = vec![(3, "d"), (1, "b"), (3, "e"), (0, "a"), (1, "c")];

    assert_eq!(sort_by_place(items), [(0, "a"), (1, "b"), (1, "c"), (3, "d"), (3, "e")]);
}

#[test]
fn every_schedule_of_projects_gives_one_report() {
    let item = |place: usize| (place, output(["a", "b", "c"][place]));
    let expected = run_projects(vec![Some(vec![item(0), item(1), item(2)])]);
    assert_eq!(expected.log, "\n===> Projects\n[a][b][c]");

    for joined in [
        vec![Some(vec![item(1)]), Some(vec![item(0), item(2)])],
        vec![Some(vec![item(2)]), Some(vec![]), Some(vec![item(0), item(1)])],
        vec![Some(vec![item(2)]), Some(vec![item(1)]), Some(vec![item(0)])],
    ] {
        assert_eq!(run_projects(joined), expected);
    }
}

#[test]
fn a_lost_worker_is_reported_behind_the_projects() {
    let merged = run_projects(vec![None, Some(vec![(4, output("e")), (1, output("b"))])]);

    assert_eq!(merged.log, "\n===> Projects\n[b][e]\n===> Project\nFAIL: worker panicked\n");
    assert_eq!(merged.records.len(), 3);
    assert_eq!(merged.records[2], StepRecord::failure("Project", "worker panicked"));
    assert_eq!(run_projects(vec![]).log, "\n===> Projects\n");
}

#[test]
fn there_are_no_more_workers_than_projects() {
    let project = || test_project("p", &[]);
    let workers = |count: usize, jobs: usize| {
        let projects = (0..count).map(|_| project()).collect();
        run_workflows(vec![], projects, false, false, jobs).joined(vec![]).worker_count()
    };

    assert_eq!(workers(5, 4), 4);
    assert_eq!(workers(3, 4), 3);
    assert_eq!(workers(0, 4), 0);
    assert_eq!(workers(1, 1), 1);
}

#[test]
fn the_queue_hands_out_each_project_once() {
    let projects = vec![test_project("a", &[]), test_project("b", &[]), test_project("c", &[])];
    let (mut queue, _) = run_workflows(vec![], projects, true, false, 2).joined(vec![]).hand_out();

    let mut taken = vec![];
    while let Some((place, check)) = queue.next_project() {
        let output = update(check, &mut |_| panic!("a dry run executes nothing"));
        taken.push((place, output.records[0].name.clone()));
    }

    assert_eq!(taken, [(0, "a".to_string()), (1, "b".to_string()), (2, "c".to_string())]);
    assert!(queue.next_project().is_none());
}

#[test]
fn few_projects_are_in_progress_at_a_time() {
    let projects = ["a", "b", "c", "d", "e"].map(|name| test_project(name, &[])).into();
    let phase = run_workflows(vec![], projects, false, false, 2).joined(vec![]);
    let workers = phase.worker_count();
    let (mut queue, join) = phase.hand_out();

    // All workers take a project, then all finish theirs, and so on.
    let mut done: Vec<Vec<(usize, WorkOutput)>> = vec![vec![]; workers];
    let mut started = vec![];
    loop {
        let mut in_progress = vec![];
        for _ in 0..workers {
            in_progress.extend(queue.next_project());
        }
        if in_progress.is_empty() {
            break;
        }
        assert!(in_progress.len() <= 2);
        for (worker, (place, check)) in in_progress.into_iter().enumerate() {
            started.push(place);
            done[worker].push((place, update(check, &mut |_| true)));
        }
    }
    let outputs = join.joined(done.into_iter().map(Some).collect());

    assert_eq!(started, [0, 1, 2, 3, 4]);
    assert_eq!(names(&outputs), ["a", "b", "c", "d", "e"]);
}

#[test]
fn a_tool_chain_has_a_heading() {
    let group = WorkGroup {
        name: "Rust",
        commands: vec![CommandSpec { program: "rustup", args: &["update"] }],
    };

    let output = go_through(run_work_group(&group, false, false), &mut |_| true);

    assert_eq!(output.log, "\n===> Rust\n> rustup update\nOK\n");
    assert_eq!(output.records, [StepRecord::success("Rust")]);
}

#[test]
fn everything_is_updated_in_parallel() {
    let home = FilePath { bytes: b"/home/me".to_vec() };

    let phase = run_parallel(true, true, false, 4, &home);

    assert_eq!(phase.groups().len(), 7);
    let joined = (0..7)
        .map(|place| {
            Some((place, go_through(phase.start(place), &mut |_| panic!("nothing is executed"))))
        })
        .collect();
    let phase = phase.joined(joined);
    assert_eq!(phase.projects().len(), 5);
    assert_eq!(phase.projects()[0].commands[1].display(), "cargo clean");
}

#[test]
fn a_bar_ends_with_the_status() {
    let failure = StepStatus::Failure("x".to_string());
    let skipped = StepStatus::Skipped("x".to_string());

    assert_eq!(finish_bar("Rust", &StepStatus::Success), "\u{1b}[32mOK\u{1b}[39m Rust");
    assert_eq!(finish_bar("Rust", &failure), "\u{1b}[31mFAIL\u{1b}[39m Rust");
    assert_eq!(finish_bar("Rust", &skipped), "\u{1b}[33mSKIP\u{1b}[39m Rust");
}
