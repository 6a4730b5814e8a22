//! The command line.

use clap::{Arg, ArgAction, Command};
use vstd::prelude::*;

use crate::text;

verus! {

/// What the program is called.
pub const PROGRAM: &'static str = "daily-ups";

/// What the program is for.
pub const ABOUT: &'static str = "Update local toolchains and projects";

/// How many projects are updated at a time if nothing else is asked for.
pub const DEFAULT_JOBS: usize = 4;

/// What a run is asked to do.
#[derive(Debug, Clone, Copy, PartialEq, Eq, Structural)]
pub struct Cli {
    /// List what would be done, and do nothing.
    pub dry_run: bool,
    /// Clean the projects before they are built.
    pub deep: bool,
    /// How many projects to update at a time.
    pub jobs: usize,
    /// Keep what the commands print that pass.
    pub verbose_log: bool,
}

/// What there is to say where the command line does not lead to a run.
#[derive(Debug, Clone, PartialEq, Eq)]
pub struct Rejection {
    pub message: String,
    /// The same with the escape sequences that colour it on a terminal.
    pub styled: String,
    /// Whether it is an error, and not the help that was asked for.
    pub on_stderr: bool,
}

impl Rejection {
    /// The exit code of the program: 2 for an error.
    pub fn exit_code(&self) -> (code: i32)
        ensures
            code == if self.on_stderr {
                2i32
            } else {
                0i32
            },
    {
        if self.on_stderr {
            2
        } else {
            0
        }
    }
}

/// Whether `name` can be the name of an option.
pub open spec fn is_option_name(name: Seq<char>) -> bool {
    &&& name.len() > 0
    &&& name[0] != '-'
    &&& !name.contains('=')
    &&& name != "help"@
}

/// Whether `names` can be the names of the options of one program.
pub open spec fn are_option_names(names: Seq<Seq<char>>) -> bool {
    &&& names.no_duplicates()
    &&& forall|i: int| 0 <= i < names.len() ==> is_option_name(#[trigger] names[i])
}

/// The option `name` as it stands on the command line.
pub open spec fn long_option(name: Seq<char>) -> Seq<char> {
    "--"@ + name
}

/// The words of a command line behind the name of the program.
pub open spec fn given_words(args: Seq<Seq<char>>) -> Seq<Seq<char>> {
    if args.len() == 0 {
        args
    } else {
        args.drop_first()
    }
}

/// Whether `words` are options that take no value, out of `flags`, none of them
/// twice.
pub open spec fn are_flags(words: Seq<Seq<char>>, flags: Seq<Seq<char>>) -> bool {
    &&& words.no_duplicates()
    &&& forall|i: int|
        0 <= i < words.len() ==> exists|j: int|
            0 <= j < flags.len() && #[trigger] words[i] == long_option(#[trigger] flags[j])
}

/// What a command line comes to: whether the three options that take no value
/// stand there, and the number of the fourth; or a message, the same in colours, and
/// whether it is an error.
pub type ParsedLine = Result<(bool, bool, bool, usize), (Seq<char>, Seq<char>, bool)>;

/// What `clap` makes of the command line `args`, where there are three options that
/// take no value and a fourth that takes a number.
pub uninterp spec fn parsed_line(
    program: Seq<char>,
    about: Seq<char>,
    dry_run: Seq<char>,
    deep: Seq<char>,
    verbose_log: Seq<char>,
    jobs: Seq<char>,
    jobs_value: Seq<char>,
    default_jobs: usize,
    args: Seq<Seq<char>>,
) -> Result<(bool, bool, bool, usize), (Seq<char>, Seq<char>, bool)>;

/// A parsed command line in terms of characters.
pub open spec fn line_view(line: Result<(bool, bool, bool, usize), (String, String, bool)>) -> ParsedLine {
    match line {
        Ok(found) => Ok(found),
        Err((message, styled, on_stderr)) => Err((message@, styled@, on_stderr)),
    }
}

/// What a command line comes to that has the options `words`, which take no value,
/// and asks for `jobs`.
pub open spec fn line_of_flags(
    words: Seq<Seq<char>>,
    flags: Seq<Seq<char>>,
    jobs: usize,
) -> ParsedLine {
    Ok(
        (
            words.contains(long_option(flags[0])),
            words.contains(long_option(flags[1])),
            words.contains(long_option(flags[2])),
            jobs,
        ),
    )
}

/// `clap::Command::try_get_matches_from`, on a command with three options that take
/// no value and one, `jobs`, that takes a number and shows it as `jobs_value`, and
/// `ArgMatches::get_flag` and `ArgMatches::get_one` on what it finds. Claimed of
/// them: what is found, or the message that `Error::render` gives, without and with
/// its colours, and its stream, is a function of the command and of the words. Each option that takes no value may
/// stand once, in any order, and is found if it stands there. `jobs` is the default
/// where it does not stand there, and the number that stands behind it where the two
/// are the last words.
#[verifier::external_body]
fn parse_line(
    program: &'static str,
    about: &'static str,
    dry_run: &'static str,
    deep: &'static str,
    verbose_log: &'static str,
    jobs: &'static str,
    jobs_value: &'static str,
    default_jobs: usize,
    args: Vec<String>,
) -> (line: Result<(bool, bool, bool, usize), (String, String, bool)>)
    requires
        are_option_names(seq![dry_run@, deep@, verbose_log@, jobs@]),
        are_option_names(seq![dry_run@, deep@, verbose_log@, jobs_value@]),
    ensures
        line_view(line) == parsed_line(
            program@,
            about@,
            dry_run@,
            deep@,
            verbose_log@,
            jobs@,
            jobs_value@,
            default_jobs,
            text::string_views(args@),
        ),
        ({
            let words = given_words(text::string_views(args@));
            let flags = seq![dry_run@, deep@, verbose_log@];
            are_flags(words, flags) ==> line_view(line) == line_of_flags(
                words,
                flags,
                default_jobs,
            )
        }),
        ({
            let words = given_words(text::string_views(args@));
            let front = words.take(words.len() - 2);
            let flags = seq![dry_run@, deep@, verbose_log@];
            forall|n: usize|
                words.len() >= 2 && words[words.len() - 2] == long_option(jobs@) && words.last()
                    == #[trigger] text::decimal_text(n as nat) && are_flags(front, flags)
                    ==> line_view(line) == line_of_flags(front, flags, n)
        }),
{
    let flag = |name| Arg::new(name).long(name).action(ArgAction::SetTrue);
    let count = Arg::new(jobs_value).long(jobs).value_parser(str::parse::<usize>)
        .default_value(default_jobs.to_string());
    let options = [flag(dry_run), flag(deep), count, flag(verbose_log)];
    match Command::new(program).about(about).args(options).try_get_matches_from(args) {
        Ok(found) => Ok((found.get_flag(dry_run), found.get_flag(deep),
            found.get_flag(verbose_log), *found.get_one(jobs_value).unwrap())),
        Err(error) => {
            let text = error.render();
            let styled = text.ansi().to_string();
            Err((text.to_string(), styled, error.use_stderr()))
        },
    }
}

/// What `clap` makes of the command line `args` of this program.
pub open spec fn program_line(args: Seq<Seq<char>>) -> ParsedLine {
    parsed_line(
        PROGRAM@,
        ABOUT@,
        "dry-run"@,
        "deep"@,
        "verbose-log"@,
        "jobs"@,
        "JOBS"@,
        DEFAULT_JOBS,
        args,
    )
}

/// The options of this program that take no value.
pub open spec fn program_flags() -> Seq<Seq<char>> {
    seq!["dry-run"@, "deep"@, "verbose-log"@]
}

/// What a run is asked to do by the flags in `words`, with `jobs` projects at a time.
pub open spec fn cli_of_flags(words: Seq<Seq<char>>, jobs: usize) -> Cli {
    Cli {
        dry_run: words.contains(long_option("dry-run"@)),
        deep: words.contains(long_option("deep"@)),
        jobs,
        verbose_log: words.contains(long_option("verbose-log"@)),
    }
}

proof fn lemma_program_options()
    ensures
        are_option_names(seq!["dry-run"@, "deep"@, "verbose-log"@, "jobs"@]),
        are_option_names(seq!["dry-run"@, "deep"@, "verbose-log"@, "JOBS"@]),
{
    reveal_strlit("dry-run");
    reveal_strlit("deep");
    reveal_strlit("verbose-log");
    reveal_strlit("jobs");
    reveal_strlit("JOBS");
    reveal_strlit("help");
    assert("deep"@[0] == 'd');
    assert("jobs"@[0] == 'j');
    assert("JOBS"@[0] == 'J');
    assert("help"@[0] == 'h');
    assert("dry-run"@.len() == 7);
    assert("verbose-log"@.len() == 11);
}

impl Cli {
    /// A run with these options.
    pub fn new(dry_run: bool, deep: bool, jobs: usize, verbose_log: bool) -> (cli: Cli)
        ensures
            cli == (Cli { dry_run, deep, jobs, verbose_log }),
    {
        Cli { dry_run, deep, jobs, verbose_log }
    }

    /// What the command line `args` asks for. Its first word is the name that the
    /// program was called by.
    pub fn parse_from(args: Vec<String>) -> (parsed: Result<Cli, Rejection>)
        ensures
            program_line(text::string_views(args@)) == match parsed {
                Ok(cli) => ParsedLine::Ok((cli.dry_run, cli.deep, cli.verbose_log, cli.jobs)),
                Err(rejection) => ParsedLine::Err(
                    (rejection.message@, rejection.styled@, rejection.on_stderr),
                ),
            },
            ({
                let words = given_words(text::string_views(args@));
                are_flags(words, program_flags()) ==> parsed == Ok::<Cli, Rejection>(
                    cli_of_flags(words, DEFAULT_JOBS),
                )
            }),
            ({
                let words = given_words(text::string_views(args@));
                let flags = words.take(words.len() - 2);
                forall|n: usize|
                    words.len() >= 2 && words[words.len() - 2] == long_option("jobs"@)
                        && words.last() == #[trigger] text::decimal_text(n as nat) && are_flags(
                        flags,
                        program_flags(),
                    ) ==> parsed == Ok::<Cli, Rejection>(cli_of_flags(flags, n))
            }),
            args@.len() <= 1 ==> parsed == Ok::<Cli, Rejection>(
                (Cli { dry_run: false, deep: false, jobs: 4, verbose_log: false }),
            ),
    {
        proof {
            lemma_program_options();
            let words = given_words(text::string_views(args@));
            if args@.len() <= 1 {
                assert(words =~= Seq::<Seq<char>>::empty());
                assert(are_flags(words, program_flags()));
            }
        }
        let line = parse_line(
            PROGRAM,
            ABOUT,
            "dry-run",
            "deep",
            "verbose-log",
            "jobs",
            "JOBS",
            DEFAULT_JOBS,
            args,
        );
        match line {
            Ok((dry_run, deep, verbose_log, jobs)) => {
                Ok(Cli::new(dry_run, deep, jobs, verbose_log))
            },
            Err((message, styled, on_stderr)) => Err(Rejection { message, styled, on_stderr }),
        }
    }
}

/// Each flag means what it says, wherever it stands among the others: a run is dry if
/// and only if `--dry-run` is there, deep if and only if `--deep` is there, and keeps a
/// verbose log if and only if `--verbose-log` is there.
pub proof fn each_flag_means_what_it_says(words: Seq<Seq<char>>, jobs: usize)
    ensures
        cli_of_flags(words, jobs).dry_run <==> words.contains("--dry-run"@),
        cli_of_flags(words, jobs).deep <==> words.contains("--deep"@),
        cli_of_flags(words, jobs).verbose_log <==> words.contains("--verbose-log"@),
        cli_of_flags(words, jobs).jobs == jobs,
        long_option("jobs"@) == "--jobs"@,
        are_flags(words, program_flags()) <==> words.no_duplicates() && forall|i: int|
            0 <= i < words.len() ==> (#[trigger] words[i] == "--dry-run"@ || words[i] == "--deep"@
                || words[i] == "--verbose-log"@),
{
    reveal_strlit("--");
    reveal_strlit("dry-run");
    reveal_strlit("deep");
    reveal_strlit("verbose-log");
    reveal_strlit("jobs");
    reveal_strlit("--dry-run");
    reveal_strlit("--deep");
    reveal_strlit("--verbose-log");
    reveal_strlit("--jobs");
    assert(long_option("dry-run"@) =~= "--dry-run"@);
    assert(long_option("deep"@) =~= "--deep"@);
    assert(long_option("verbose-log"@) =~= "--verbose-log"@);
    assert(long_option("jobs"@) =~= "--jobs"@);
    let flags = program_flags();
    assert(flags[0] == "dry-run"@ && flags[1] == "deep"@ && flags[2] == "verbose-log"@);
    if words.no_duplicates() && forall|i: int|
        0 <= i < words.len() ==> (#[trigger] words[i] == "--dry-run"@ || words[i] == "--deep"@
            || words[i] == "--verbose-log"@) {
        assert forall|i: int| 0 <= i < words.len() implies exists|j: int|
            0 <= j < flags.len() && #[trigger] words[i] == long_option(#[trigger] flags[j]) by {
            let j: int = if words[i] == "--dry-run"@ {
                0
            } else if words[i] == "--deep"@ {
                1
            } else {
                2
            };
            assert(words[i] == long_option(flags[j]));
        }
    }
}

} // verus!
