//! The colours that a line has on the terminal.

use owo_colors::OwoColorize;
use vstd::prelude::*;

verus! {

/// What a line is about, which decides how it looks on the terminal.
#[derive(Debug, Clone, Copy, PartialEq, Eq, Structural)]
pub enum Tone {
    Header,
    Success,
    Failure,
    Skipped,
    Muted,
}

/// `text` between the escape sequences that give it the look of `tone`.
pub open spec fn styled_text(text: Seq<char>, tone: Tone) -> Seq<char> {
    match tone {
        Tone::Header => "\x1b[36m\x1b[1m"@ + text + "\x1b[0m\x1b[39m"@,
        Tone::Success => "\x1b[32m"@ + text + "\x1b[39m"@,
        Tone::Failure => "\x1b[31m"@ + text + "\x1b[39m"@,
        Tone::Skipped => "\x1b[33m"@ + text + "\x1b[39m"@,
        Tone::Muted => "\x1b[2m"@ + text + "\x1b[0m"@,
    }
}

/// `OwoColorize::bold`, then `OwoColorize::cyan`. Claimed of them: the colour is
/// set before the weight, and both are put back behind the text.
#[verifier::external_body]
fn bold_cyan(text: &str) -> (shown: String)
    ensures
        shown@ == "\x1b[36m\x1b[1m"@ + text@ + "\x1b[0m\x1b[39m"@,
{
    text.bold().cyan().to_string()
}

/// `OwoColorize::green`. Claimed of it: the text stands between the sequence
/// that sets the colour and the one that sets the default colour.
#[verifier::external_body]
fn green(text: &str) -> (shown: String)
    ensures
        shown@ == "\x1b[32m"@ + text@ + "\x1b[39m"@,
{
    text.green().to_string()
}

/// `OwoColorize::red`. Claimed of it: the text stands between the sequence that
/// sets the colour and the one that sets the default colour.
#[verifier::external_body]
fn red(text: &str) -> (shown: String)
    ensures
        shown@ == "\x1b[31m"@ + text@ + "\x1b[39m"@,
{
    text.red().to_string()
}

/// `OwoColorize::yellow`. Claimed of it: the text stands between the sequence
/// that sets the colour and the one that sets the default colour.
#[verifier::external_body]
fn yellow(text: &str) -> (shown: String)
    ensures
        shown@ == "\x1b[33m"@ + text@ + "\x1b[39m"@,
{
    text.yellow().to_string()
}

/// `OwoColorize::dimmed`. Claimed of it: the text stands between the sequence
/// that dims and the one that resets.
#[verifier::external_body]
fn dimmed(text: &str) -> (shown: String)
    ensures
        shown@ == "\x1b[2m"@ + text@ + "\x1b[0m"@,
{
    text.dimmed().to_string()
}

/// `text` as the terminal shows it in `tone`.
pub fn styled(text: &str, tone: Tone) -> (shown: String)
    ensures
        shown@ == styled_text(text@, tone),
{
    match tone {
        Tone::Header => bold_cyan(text),
        Tone::Success => green(text),
        Tone::Failure => red(text),
        Tone::Skipped => yellow(text),
        Tone::Muted => dimmed(text),
    }
}

/// A tone changes nothing of the text: it stands whole between an escape sequence that
/// sets the look and one that ends it, and both are the same for every text.
pub proof fn a_tone_keeps_the_whole_text(text: Seq<char>, other: Seq<char>, tone: Tone)
    ensures
        exists|front: Seq<char>, back: Seq<char>|
            {
                &&& styled_text(text, tone) == #[trigger] ((front + text) + back)
                &&& styled_text(other, tone) == (front + other) + back
                &&& front.len() > 0 && front[0] == '\x1b'
                &&& back.len() > 0 && back[0] == '\x1b'
            },
{
    reveal_strlit("\x1b[36m\x1b[1m");
    reveal_strlit("\x1b[0m\x1b[39m");
    reveal_strlit("\x1b[32m");
    reveal_strlit("\x1b[31m");
    reveal_strlit("\x1b[33m");
    reveal_strlit("\x1b[39m");
    reveal_strlit("\x1b[2m");
    reveal_strlit("\x1b[0m");
    let (front, back) = match tone {
        Tone::Header => ("\x1b[36m\x1b[1m"@, "\x1b[0m\x1b[39m"@),
        Tone::Success => ("\x1b[32m"@, "\x1b[39m"@),
        Tone::Failure => ("\x1b[31m"@, "\x1b[39m"@),
        Tone::Skipped => ("\x1b[33m"@, "\x1b[39m"@),
        Tone::Muted => ("\x1b[2m"@, "\x1b[0m"@),
    };
    assert(styled_text(text, tone) == (front + text) + back);
    assert(styled_text(other, tone) == (front + other) + back);
}

/// Tones look different: no text reads the same in two of them.
pub proof fn tones_can_be_told_apart(text: Seq<char>, a: Tone, b: Tone)
    requires
        a != b,
    ensures
        styled_text(text, a) != styled_text(text, b),
{
    reveal_strlit("\x1b[36m\x1b[1m");
    reveal_strlit("\x1b[0m\x1b[39m");
    reveal_strlit("\x1b[32m");
    reveal_strlit("\x1b[31m");
    reveal_strlit("\x1b[33m");
    reveal_strlit("\x1b[39m");
    reveal_strlit("\x1b[2m");
    reveal_strlit("\x1b[0m");
    let x = styled_text(text, a);
    let y = styled_text(text, b);
    assert(x[2] != y[2] || x[3] != y[3]);
}

/// The colours of the tones: green for success, red for failure, yellow for what is
/// left out, cyan and bold for headers, dim for what matters less. Behind the text the
/// look is as it was.
pub proof fn each_tone_has_its_colour(text: Seq<char>)
    ensures
        styled_text(text, Tone::Success) == seq!['\x1b', '[', '3', '2', 'm'] + text + seq![
            '\x1b',
            '[',
            '3',
            '9',
            'm',
        ],
        styled_text(text, Tone::Failure) == seq!['\x1b', '[', '3', '1', 'm'] + text + seq![
            '\x1b',
            '[',
            '3',
            '9',
            'm',
        ],
        styled_text(text, Tone::Skipped) == seq!['\x1b', '[', '3', '3', 'm'] + text + seq![
            '\x1b',
            '[',
            '3',
            '9',
            'm',
        ],
        styled_text(text, Tone::Header) == seq!['\x1b', '[', '3', '6', 'm', '\x1b', '[', '1', 'm']
            + text + seq!['\x1b', '[', '0', 'm', '\x1b', '[', '3', '9', 'm'],
        styled_text(text, Tone::Muted) == seq!['\x1b', '[', '2', 'm'] + text + seq![
            '\x1b',
            '[',
            '0',
            'm',
        ],
{
    reveal_strlit("\x1b[36m\x1b[1m");
    reveal_strlit("\x1b[0m\x1b[39m");
    reveal_strlit("\x1b[32m");
    reveal_strlit("\x1b[31m");
    reveal_strlit("\x1b[33m");
    reveal_strlit("\x1b[39m");
    reveal_strlit("\x1b[2m");
    reveal_strlit("\x1b[0m");
}

} // verus!
