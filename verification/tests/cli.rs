use daily_ups::Cli;

fn words(args: &[&str]) -> Vec<String> {
    args.iter().map(|arg| arg.to_string()).collect()
}

#[test]
fn defaults_to_four_project_jobs() {
    let cli = Cli::parse_from(words(&["daily-ups"])).expect("no options are fine");

    assert_eq!(cli.jobs, 4);
}

#[test]
fn no_options_ask_for_a_default_run() {
    let expected = Cli { dry_run: false, deep: false, jobs: 4, verbose_log: false };

    assert_eq!(Cli::parse_from(words(&["daily-ups"])), Ok(expected));
    assert_eq!(Cli::parse_from(words(&[])), Ok(expected));
    assert_eq!(Cli::new(false, false, 4, false), expected);
}

#[test]
fn flags_stand_in_any_order() {
    assert_eq!(
        Cli::parse_from(words(&["daily-ups", "--verbose-log", "--dry-run"])),
        Ok(Cli { dry_run: true, deep: false, jobs: 4, verbose_log: true })
    );
    assert_eq!(
        Cli::parse_from(words(&["/usr/bin/daily-ups", "--deep"])),
        Ok(Cli { dry_run: false, deep: true, jobs: 4, verbose_log: false })
    );
    assert_eq!(
        Cli::parse_from(words(&["x", "--deep", "--dry-run", "--verbose-log"])),
        Ok(Cli { dry_run: true, deep: true, jobs: 4, verbose_log: true })
    );
}

#[test]
fn jobs_take_a_number() {
    assert_eq!(
        Cli::parse_from(words(&["daily-ups", "--deep", "--jobs", "12"])),
        Ok(Cli { dry_run: false, deep: true, jobs: 12, verbose_log: false })
    );
    assert_eq!(
        Cli::parse_from(words(&["daily-ups", "--jobs=7"])),
        Ok(Cli { dry_run: false, deep: false, jobs: 7, verbose_log: false })
    );
    assert_eq!(
        Cli::parse_from(words(&["daily-ups", "--jobs", "0"])).map(|cli| cli.jobs),
        Ok(0)
    );
    assert_eq!(
        Cli::parse_from(words(&["daily-ups", "--jobs", &usize::MAX.to_string()]))
            .map(|cli| cli.jobs),
        Ok(usize::MAX)
    );
}

#[test]
fn errors_go_to_standard_error() {
    for line in [
        vec!["daily-ups", "--fast"],
        vec!["daily-ups", "now"],
        vec!["daily-ups", "--jobs", "many"],
        vec!["daily-ups", "--jobs"],
        vec!["daily-ups", "--deep", "--deep"],
        vec!["daily-ups", "--dry-run=yes"],
        vec!["daily-ups", "--version"],
    ] {
        let rejection = Cli::parse_from(words(&line)).expect_err("this is no command line");
        assert!(rejection.on_stderr);
        assert_eq!(rejection.exit_code(), 2);
        assert!(rejection.message.starts_with("error: "));
        assert!(rejection.styled.starts_with("\u{1b}["));
    }
}

#[test]
fn help_goes_to_standard_output() {
    let rejection = Cli::parse_from(words(&["daily-ups", "--help"])).expect_err("help is no run");

    assert!(!rejection.on_stderr);
    assert_eq!(rejection.exit_code(), 0);
    assert!(rejection.message.starts_with("Update local toolchains and projects\n"));
    assert!(rejection.message.contains("Usage: daily-ups [OPTIONS]"));
    for option in ["--dry-run", "--deep", "--jobs <JOBS>", "--verbose-log", "[default: 4]"] {
        assert!(rejection.message.contains(option));
    }
}
