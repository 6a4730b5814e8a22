//! Building blocks for the texts that the program writes: decimal numbers,
//! lines, and the decoding of bytes that a child process printed.

use vstd::prelude::*;
use vstd::utf8;

verus! {

/// The decimal digit that stands for `d`, for `d < 10`.
pub open spec fn digit_char(d: nat) -> char {
    if d == 0 {
        '0'
    } else if d == 1 {
        '1'
    } else if d == 2 {
        '2'
    } else if d == 3 {
        '3'
    } else if d == 4 {
        '4'
    } else if d == 5 {
        '5'
    } else if d == 6 {
        '6'
    } else if d == 7 {
        '7'
    } else if d == 8 {
        '8'
    } else {
        '9'
    }
}

/// Digits stand between `0` and `9`, in the order of the numbers they stand for.
pub(crate) proof fn lemma_digit_order(a: nat, b: nat)
    requires
        a < 10,
        b < 10,
    ensures
        '0' <= digit_char(a) <= '9',
        a < b <==> digit_char(a) < digit_char(b),
        a == b <==> digit_char(a) == digit_char(b),
{
}

/// `n` in decimal, without leading zeros.
pub open spec fn decimal_text(n: nat) -> Seq<char>
    decreases n,
{
    if n < 10 {
        seq![digit_char(n)]
    } else {
        decimal_text(n / 10).push(digit_char(n % 10))
    }
}

/// `n` in decimal, with a leading minus sign where it is negative.
pub open spec fn integer_text(n: int) -> Seq<char> {
    if n < 0 {
        "-"@ + decimal_text((-n) as nat)
    } else {
        decimal_text(n as nat)
    }
}

/// How many lines `text` has: one for each line feed, and one more for a last
/// line that no line feed ends.
pub open spec fn line_count(text: Seq<char>) -> nat {
    let feeds = text.filter(|c: char| c == '\n').len();
    if text.len() > 0 && text.last() != '\n' {
        feeds + 1
    } else {
        feeds
    }
}

/// The characters of each of `words`.
pub open spec fn str_views(words: Seq<&str>) -> Seq<Seq<char>> {
    words.map_values(|word: &str| word@)
}

/// The views of a list of strings.
pub open spec fn string_views(strings: Seq<String>) -> Seq<Seq<char>> {
    strings.map_values(|s: String| s@)
}

/// A string at the end of a list is the last of the views.
pub(crate) proof fn lemma_string_views_push(strings: Seq<String>, string: String)
    ensures
        string_views(strings.push(string)) == string_views(strings).push(string@),
{
    assert(string_views(strings.push(string)) =~= string_views(strings).push(string@));
}

/// Whether the last character of `text` is a line feed.
pub open spec fn ends_line(text: Seq<char>) -> bool {
    text.len() > 0 && text.last() == '\n'
}

/// The text that `String::from_utf8_lossy` makes of `bytes`.
pub uninterp spec fn lossy_text(bytes: Seq<u8>) -> Seq<char>;

/// `String::from_utf8_lossy`: decodes `bytes` as UTF-8, with U+FFFD in the
/// place of what is not valid. Claimed of it: the text depends on the bytes
/// alone; valid UTF-8 is decoded as it stands; only no bytes at all give the
/// empty text.
#[verifier::external_body]
pub(crate) fn decode_lossy(bytes: &[u8]) -> (text: String)
    ensures
        text@ == lossy_text(bytes@),
        utf8::valid_utf8(bytes@) ==> text@ == utf8::decode_utf8(bytes@),
        text@.len() == 0 <==> bytes@.len() == 0,
{
    String::from_utf8_lossy(bytes).into_owned()
}

fn digit(d: u64) -> (s: &'static str)
    requires
        d < 10,
    ensures
        s@ == seq![digit_char(d as nat)],
{
    proof {
        reveal_strlit("0");
        reveal_strlit("1");
        reveal_strlit("2");
        reveal_strlit("3");
        reveal_strlit("4");
        reveal_strlit("5");
        reveal_strlit("6");
        reveal_strlit("7");
        reveal_strlit("8");
        reveal_strlit("9");
    }
    let s = match d {
        0 => "0",
        1 => "1",
        2 => "2",
        3 => "3",
        4 => "4",
        5 => "5",
        6 => "6",
        7 => "7",
        8 => "8",
        _ => "9",
    };
    assert(s@ =~= seq![digit_char(d as nat)]);
    s
}

/// Writes `n` in decimal.
pub fn decimal(n: u64) -> (s: String)
    ensures
        s@ == decimal_text(n as nat),
    decreases n,
{
    if n < 10 {
        digit(n).to_string()
    } else {
        let s = decimal(n / 10).concat(digit(n % 10));
        assert(s@ =~= decimal_text(n as nat));
        s
    }
}

/// Writes `n` in decimal, with its sign where it is negative.
pub fn integer(n: i32) -> (s: String)
    ensures
        s@ == integer_text(n as int),
{
    if n < 0 {
        let magnitude: i64 = -(n as i64);
        "-".to_string().concat(decimal(magnitude as u64).as_str())
    } else {
        decimal(n as u64)
    }
}

/// Whether `text` ends with a line feed.
pub fn ends_with_newline(text: &str) -> (b: bool)
    ensures
        b == ends_line(text@),
{
    let len: usize = text.unicode_len();
    len > 0 && text.get_char(len - 1) == '\n'
}

/// Counts the lines of `text`.
pub fn count_lines(text: &str) -> (n: usize)
    ensures
        n == line_count(text@),
{
    let ghost feed = |c: char| c == '\n';
    let len: usize = text.unicode_len();
    let mut feeds: usize = 0;
    for c in it: text.chars()
        invariant
            it.seq() == text@,
            feed == (|c: char| c == '\n'),
            text@.len() == len,
            feeds <= it.index() <= len,
            feeds == text@.take(it.index()).filter(feed).len(),
    {
        proof {
            let k = it.index();
            assert(text@.take(k + 1) =~= text@.take(k).push(c));
            text@.take(k).lemma_filter_push(c, feed);
        }
        if c == '\n' {
            feeds = feeds + 1;
        }
    }
    assert(text@.take(len as int) =~= text@);
    if len > 0 && !ends_with_newline(text) {
        proof {
            // The last character is no line feed, so not every one is.
            assert(text@ =~= text@.drop_last().push(text@.last()));
            text@.drop_last().lemma_filter_push(text@.last(), feed);
            text@.drop_last().lemma_filter_len(feed);
        }
        feeds + 1
    } else {
        feeds
    }
}

/// The number that a text of decimal digits stands for.
pub open spec fn digits_value(digits: Seq<char>) -> int
    decreases digits.len(),
{
    if digits.len() == 0 {
        0
    } else {
        10 * digits_value(digits.drop_last()) + (digits.last() as int - '0' as int)
    }
}

/// A number in decimal reads back as the number: it has digits and nothing else, the
/// first of them is no zero unless it stands alone, and the digits stand for the
/// number.
pub proof fn decimal_numbers_read_back(n: nat)
    ensures
        decimal_text(n).len() > 0,
        forall|i: int|
            0 <= i < decimal_text(n).len() ==> '0' <= #[trigger] decimal_text(n)[i] <= '9',
        decimal_text(n)[0] == '0' ==> n == 0 && decimal_text(n).len() == 1,
        digits_value(decimal_text(n)) == n,
    decreases n,
{
    if n < 10 {
        assert(decimal_text(n).drop_last() =~= Seq::<char>::empty());
        assert(digits_value(decimal_text(n).drop_last()) == 0);
    } else {
        decimal_numbers_read_back(n / 10);
        assert(decimal_text(n).drop_last() =~= decimal_text(n / 10));
        assert(decimal_text(n)[0] == decimal_text(n / 10)[0]);
    }
}

/// A negative number has a minus sign in front of its digits, and no other number has
/// one.
pub proof fn only_negative_numbers_have_a_sign(n: int)
    ensures
        n < 0 ==> integer_text(n) == seq!['-'] + decimal_text((-n) as nat),
        n >= 0 ==> integer_text(n) == decimal_text(n as nat),
        n < 0 <==> integer_text(n)[0] == '-',
{
    reveal_strlit("-");
    assert("-"@ =~= seq!['-']);
    decimal_numbers_read_back(if n < 0 {
        (-n) as nat
    } else {
        n as nat
    });
}

proof fn lemma_no_feeds(line: Seq<char>)
    requires
        !line.contains('\n'),
    ensures
        line.filter(|c: char| c == '\n').len() == 0,
{
    assert forall|i: int| 0 <= i < line.len() implies !(|c: char| c == '\n')(line[i]) by {
        assert(line.contains(line[i]));
    }
    line.lemma_all_neg_filter_empty(|c: char| c == '\n');
}

/// The empty text alone has no lines.
pub proof fn only_the_empty_text_has_no_lines(text: Seq<char>)
    ensures
        line_count(text) == 0 <==> text.len() == 0,
{
    let feed = |c: char| c == '\n';
    if text.len() > 0 {
        assert(text =~= text.drop_last().push(text.last()));
        text.drop_last().lemma_filter_push(text.last(), feed);
    } else {
        lemma_no_feeds(text);
    }
}

/// Behind whole lines, one more line raises the count by one, whatever it reads: with
/// the line feed that ends it, and also without, unless it is empty.
pub proof fn each_line_counts_once(text: Seq<char>, line: Seq<char>)
    requires
        text.len() == 0 || text.last() == '\n',
        !line.contains('\n'),
    ensures
        line_count(text + line.push('\n')) == line_count(text) + 1,
        line.len() > 0 ==> line_count(text + line) == line_count(text) + 1,
{
    let feed = |c: char| c == '\n';
    lemma_no_feeds(line);
    line.lemma_filter_push('\n', feed);
    Seq::filter_distributes_over_add(text, line.push('\n'), feed);
    Seq::filter_distributes_over_add(text, line, feed);
    assert((text + line.push('\n')).last() == '\n');
    if line.len() > 0 {
        assert((text + line).last() == line.last());
        assert(line.contains(line.last()));
    }
}

/// A list of texts is told text by text: none is left out, and none is changed.
pub proof fn every_text_of_a_list_counts(words: Seq<&str>, strings: Seq<String>, i: int)
    ensures
        str_views(words).len() == words.len(),
        0 <= i < words.len() ==> str_views(words)[i] == words[i]@,
        string_views(strings).len() == strings.len(),
        0 <= i < strings.len() ==> string_views(strings)[i] == strings[i]@,
{
}

} // verus!
