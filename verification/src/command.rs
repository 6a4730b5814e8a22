//! Commands, how they end, and what they print.

use vstd::prelude::*;

use crate::text;

verus! {

/// A program and the arguments that it is called with.
#[derive(Debug, Clone, Copy, PartialEq, Eq)]
pub struct CommandSpec {
    pub program: &'static str,
    pub args: &'static [&'static str],
}

impl View for CommandSpec {
    type V = Seq<Seq<char>>;

    /// The words of the command: the program, then its arguments.
    open spec fn view(&self) -> Seq<Seq<char>> {
        seq![self.program@] + text::str_views(self.args@)
    }
}

/// The words of each command of a list.
pub open spec fn command_views(commands: Seq<CommandSpec>) -> Seq<Seq<Seq<char>>> {
    commands.map_values(|c: CommandSpec| c@)
}

/// The words of a command, with one space between each and the next.
pub open spec fn command_line(words: Seq<Seq<char>>) -> Seq<char>
    decreases words.len(),
{
    if words.len() == 0 {
        Seq::empty()
    } else if words.len() == 1 {
        words[0]
    } else {
        command_line(words.drop_last()) + " "@ + words.last()
    }
}

impl CommandSpec {
    /// The command as one line.
    pub fn display(&self) -> (line: String)
        ensures
            line@ == command_line(self@),
    {
        let ghost words = self@;
        let mut line = self.program.to_string();
        assert(words.take(1) =~= seq![self.program@]);
        for i in 0..self.args.len()
            invariant
                words == self@,
                line@ == command_line(words.take(i + 1)),
        {
            assert(words.take(i + 2).drop_last() =~= words.take(i + 1));
            line = line.concat(" ").concat(self.args[i]);
        }
        assert(words.take(self.args@.len() as int + 1) =~= words);
        line
    }
}

/// How a child process ended.
#[derive(Debug, Clone, PartialEq, Eq)]
pub enum ProcessOutcome {
    /// It could not be started, for this reason.
    NotStarted(String),
    /// It ran to its end. There is no exit code where a signal ended it.
    Exited { success: bool, code: Option<i32>, stdout: Vec<u8>, stderr: Vec<u8> },
}

/// A [`ProcessOutcome`] in terms of characters and bytes.
pub enum OutcomeView {
    NotStarted(Seq<char>),
    Exited { success: bool, code: Option<i32>, stdout: Seq<u8>, stderr: Seq<u8> },
}

impl View for ProcessOutcome {
    type V = OutcomeView;

    open spec fn view(&self) -> OutcomeView {
        match self {
            ProcessOutcome::NotStarted(error) => OutcomeView::NotStarted(error@),
            ProcessOutcome::Exited { success, code, stdout, stderr } => OutcomeView::Exited {
                success: *success,
                code: *code,
                stdout: stdout@,
                stderr: stderr@,
            },
        }
    }
}

/// Why a command failed, and what it had printed by then.
#[derive(Debug, Clone, PartialEq, Eq)]
pub struct CommandFailure {
    pub reason: String,
    pub output: String,
}

/// What a command came to: what it printed, or why it failed and what it had
/// printed by then.
pub enum ResultView {
    Passed { output: Seq<char> },
    Failed { reason: Seq<char>, output: Seq<char> },
}

/// The view of the result of a command.
pub open spec fn result_view(result: Result<String, CommandFailure>) -> ResultView {
    match result {
        Ok(output) => ResultView::Passed { output: output@ },
        Err(failure) => ResultView::Failed { reason: failure.reason@, output: failure.output@ },
    }
}

/// An exit code in words.
pub open spec fn code_text(code: Option<i32>) -> Seq<char> {
    match code {
        Some(code) => text::integer_text(code as int),
        None => "signal"@,
    }
}

/// `printed` behind `log`, with a line feed behind it if it has none. A stream on
/// which nothing was printed adds nothing.
pub open spec fn with_stream(log: Seq<char>, printed: Seq<char>) -> Seq<char> {
    if printed.len() == 0 {
        log
    } else if text::ends_line(log + printed) {
        log + printed
    } else {
        log + printed + "\n"@
    }
}

/// What a process printed on its two streams.
pub open spec fn output_text(stdout: Seq<char>, stderr: Seq<char>) -> Seq<char> {
    with_stream(with_stream(Seq::empty(), stdout), stderr)
}

/// What the end of a process makes of the command `words`, where the process
/// printed `stdout` and `stderr`.
pub open spec fn exit_result(
    words: Seq<Seq<char>>,
    success: bool,
    code: Option<i32>,
    stdout: Seq<char>,
    stderr: Seq<char>,
) -> ResultView {
    if success {
        ResultView::Passed { output: output_text(stdout, stderr) }
    } else {
        ResultView::Failed {
            reason: "`"@ + command_line(words) + "` exited with "@ + code_text(code),
            output: output_text(stdout, stderr),
        }
    }
}

/// What becomes of the command `words` that could not be started.
pub open spec fn start_result(words: Seq<Seq<char>>, error: Seq<char>) -> ResultView {
    ResultView::Failed {
        reason: "failed to start `"@ + command_line(words) + "`: "@ + error,
        output: Seq::empty(),
    }
}

/// What `outcome` makes of the command `words`.
pub open spec fn command_result(words: Seq<Seq<char>>, outcome: OutcomeView) -> ResultView {
    match outcome {
        OutcomeView::NotStarted(error) => start_result(words, error),
        OutcomeView::Exited { success, code, stdout, stderr } => exit_result(
            words,
            success,
            code,
            text::lossy_text(stdout),
            text::lossy_text(stderr),
        ),
    }
}

/// Writes an exit code in words.
pub fn describe_code(code: Option<i32>) -> (described: String)
    ensures
        described@ == code_text(code),
{
    match code {
        Some(code) => text::integer(code),
        None => "signal".to_string(),
    }
}

fn add_stream(log: String, printed: &str) -> (longer: String)
    ensures
        longer@ == with_stream(log@, printed@),
{
    if printed.is_empty() {
        return log;
    }
    let longer = log.concat(printed);
    if text::ends_with_newline(longer.as_str()) {
        longer
    } else {
        longer.concat("\n")
    }
}

/// What a process that ran to its end makes of `command`.
pub fn judge_exit(
    command: &CommandSpec,
    success: bool,
    code: Option<i32>,
    stdout: &str,
    stderr: &str,
) -> (result: Result<String, CommandFailure>)
    ensures
        result_view(result) == exit_result(command@, success, code, stdout@, stderr@),
{
    let output = add_stream(add_stream(String::new(), stdout), stderr);
    if success {
        Ok(output)
    } else {
        let reason = "`".to_string().concat(command.display().as_str()).concat(
            "` exited with ",
        ).concat(describe_code(code).as_str());
        Err(CommandFailure { reason, output })
    }
}

/// What the process that `command` started makes of it.
pub fn run_command(command: &CommandSpec, outcome: &ProcessOutcome) -> (result: Result<
    String,
    CommandFailure,
>)
    ensures
        result_view(result) == command_result(command@, outcome@),
{
    match outcome {
        ProcessOutcome::NotStarted(error) => {
            let reason = "failed to start `".to_string().concat(command.display().as_str()).concat(
                "`: ",
            ).concat(error.as_str());
            Err(CommandFailure { reason, output: String::new() })
        },
        ProcessOutcome::Exited { success, code, stdout, stderr } => judge_exit(
            command,
            *success,
            *code,
            text::decode_lossy(stdout.as_slice()).as_str(),
            text::decode_lossy(stderr.as_slice()).as_str(),
        ),
    }
}

/// Every line that a command printed is ended: the text is empty or its last
/// character is a line feed.
pub proof fn output_is_made_of_whole_lines(stdout: Seq<char>, stderr: Seq<char>)
    ensures
        output_text(stdout, stderr).len() == 0 || text::ends_line(output_text(stdout, stderr)),
        output_text(stdout, stderr).len() == 0 <==> stdout.len() == 0 && stderr.len() == 0,
{
    reveal_strlit("\n");
}

/// A command reads as its words, each behind one space, but for the first.
pub proof fn one_space_stands_between_words(words: Seq<Seq<char>>, word: Seq<char>)
    ensures
        command_line(seq![word]) == word,
        words.len() > 0 ==> command_line(words.push(word)) == command_line(words) + seq![' ']
            + word,
{
    reveal_strlit(" ");
    assert(" "@ =~= seq![' ']);
    assert(words.push(word).drop_last() =~= words);
}

/// What a stream adds to the log: what was printed, and a line feed if that lacks one.
pub open spec fn in_whole_lines(printed: Seq<char>) -> Seq<char> {
    if printed.len() == 0 || printed.last() == '\n' {
        printed
    } else {
        printed.push('\n')
    }
}

/// Nothing that a process printed is lost, whether it succeeded or not: the output is
/// what stands on the first stream and then what stands on the second, with nothing
/// else but a line feed behind each that lacks one. A process passes if and only if
/// it succeeded.
pub proof fn both_streams_are_kept(
    words: Seq<Seq<char>>,
    success: bool,
    code: Option<i32>,
    stdout: Seq<char>,
    stderr: Seq<char>,
)
    ensures
        ({
            let result = exit_result(words, success, code, stdout, stderr);
            let output = match result {
                ResultView::Passed { output } => output,
                ResultView::Failed { output, .. } => output,
            };
            &&& result is Passed <==> success
            &&& output == in_whole_lines(stdout) + in_whole_lines(stderr)
            &&& stdout.is_prefix_of(output)
            &&& output.len() <= stdout.len() + stderr.len() + 2
        }),
{
    reveal_strlit("\n");
    assert("\n"@ =~= seq!['\n']);
    let first = with_stream(Seq::empty(), stdout);
    assert(Seq::<char>::empty() + stdout =~= stdout);
    assert(first =~= in_whole_lines(stdout));
    assert(with_stream(first, stderr) =~= in_whole_lines(stdout) + in_whole_lines(stderr)) by {
        if stderr.len() > 0 {
            assert((first + stderr).last() == stderr.last());
        }
    }
}

/// A process that failed is told of with the whole command and its exit code, or with
/// the word for a signal where there is no code.
pub proof fn a_failure_names_command_and_code(
    words: Seq<Seq<char>>,
    code: Option<i32>,
    stdout: Seq<char>,
    stderr: Seq<char>,
)
    ensures
        ({
            let reason = exit_result(words, false, code, stdout, stderr)->Failed_reason;
            match code {
                Some(n) => reason == "`"@ + command_line(words) + "` exited with "@
                    + text::integer_text(n as int),
                None => reason == "`"@ + command_line(words) + "` exited with "@ + "signal"@,
            }
        }),
{
}

/// What a process printed is read as text and judged by how it ended; one that did not
/// start fails with the command and the error, and has printed nothing.
pub proof fn an_outcome_decides_the_result(words: Seq<Seq<char>>, outcome: OutcomeView)
    ensures
        match outcome {
            OutcomeView::NotStarted(error) => {
                &&& command_result(words, outcome) is Failed
                &&& command_result(words, outcome)->Failed_reason == "failed to start `"@
                    + command_line(words) + "`: "@ + error
                &&& command_result(words, outcome)->Failed_output.len() == 0
            },
            OutcomeView::Exited { success, code, stdout, stderr } => {
                let kept = in_whole_lines(text::lossy_text(stdout)) + in_whole_lines(
                    text::lossy_text(stderr),
                );
                &&& command_result(words, outcome) is Passed <==> success
                &&& success ==> command_result(words, outcome)->Passed_output == kept
                &&& !success ==> command_result(words, outcome)->Failed_output == kept
                &&& !success ==> command_result(words, outcome) == exit_result(
                    words,
                    false,
                    code,
                    text::lossy_text(stdout),
                    text::lossy_text(stderr),
                )
            },
        },
{
    if let OutcomeView::Exited { success, code, stdout, stderr } = outcome {
        both_streams_are_kept(
            words,
            success,
            code,
            text::lossy_text(stdout),
            text::lossy_text(stderr),
        );
    }
}

/// A command is its program and all of its arguments, and a list of commands is all of
/// them, in their order.
pub proof fn every_word_of_a_command_counts(commands: Seq<CommandSpec>, i: int, j: int)
    requires
        0 <= i < commands.len(),
    ensures
        command_views(commands).len() == commands.len(),
        command_views(commands)[i].len() == commands[i].args@.len() + 1,
        command_views(commands)[i][0] == commands[i].program@,
        0 <= j < commands[i].args@.len() ==> command_views(commands)[i][j + 1]
            == commands[i].args@[j]@,
{
}

} // verus!
