//! Which log files of earlier runs are removed.

use vstd::prelude::*;

use crate::clock;
use crate::clock::LocalTime;
use crate::text;

verus! {

/// The form of the name of a log file: `d` stands for a digit, any other
/// character for itself.
pub const LOG_NAME_FORM: &'static str = "dddd-dd-dd_dd-dd-dd.log";

/// Something that the log directory lists.
#[derive(Debug, Clone, PartialEq, Eq)]
pub struct LogEntry {
    /// The name, if it is valid UTF-8.
    pub name: Option<String>,
    /// Whether it is a regular file.
    pub is_file: bool,
}

/// A [`LogEntry`] with its name as characters.
pub struct LogEntryView {
    pub name: Option<Seq<char>>,
    pub is_file: bool,
}

impl View for LogEntry {
    type V = LogEntryView;

    open spec fn view(&self) -> LogEntryView {
        LogEntryView {
            name: match self.name {
                Some(name) => Some(name@),
                None => None,
            },
            is_file: self.is_file,
        }
    }
}

/// Whether `c` may stand where the form of log names has `form`.
pub open spec fn fits(c: char, form: char) -> bool {
    if form == 'd' {
        '0' <= c <= '9'
    } else {
        c == form
    }
}

/// Whether `name` has the form that the names of log files have.
pub open spec fn is_daily(name: Seq<char>) -> bool {
    &&& name.len() == LOG_NAME_FORM@.len()
    &&& forall|i: int| 0 <= i < name.len() ==> fits(#[trigger] name[i], LOG_NAME_FORM@[i])
}

/// Whether `a` comes before `b` in the order of strings.
pub open spec fn before(a: Seq<char>, b: Seq<char>) -> bool
    decreases a.len(),
{
    if b.len() == 0 {
        false
    } else if a.len() == 0 {
        true
    } else if a[0] != b[0] {
        a[0] < b[0]
    } else {
        before(a.drop_first(), b.drop_first())
    }
}

/// Whether an entry is the log file of a run that came before the one that
/// `cutoff` names.
pub open spec fn is_outdated(entry: LogEntryView, cutoff: Seq<char>) -> bool {
    entry.name matches Some(name) && is_daily(name) && before(name, cutoff) && entry.is_file
}

/// The names of the outdated entries, in the order of the listing.
pub open spec fn outdated_names(entries: Seq<LogEntryView>, cutoff: Seq<char>) -> Seq<Seq<char>> {
    entries.filter(|e: LogEntryView| is_outdated(e, cutoff)).map_values(|e: LogEntryView| e.name->0)
}

/// The views of the entries of a listing.
pub open spec fn entry_views(entries: Seq<LogEntry>) -> Seq<LogEntryView> {
    entries.map_values(|e: LogEntry| e@)
}

/// The first character in which two strings differ decides which comes first.
proof fn lemma_first_difference(a: Seq<char>, b: Seq<char>, k: int)
    requires
        0 <= k <= a.len(),
        k <= b.len(),
        forall|i: int| 0 <= i < k ==> a[i] == b[i],
        k < a.len() && k < b.len() ==> a[k] != b[k],
    ensures
        before(a, b) == if k < a.len() && k < b.len() {
            a[k] < b[k]
        } else {
            k < b.len()
        },
    decreases k,
{
    if k > 0 {
        lemma_first_difference(a.drop_first(), b.drop_first(), k - 1);
    }
}

/// An entry at the end of a listing adds its name at the end, if it is outdated.
proof fn lemma_outdated_push(entries: Seq<LogEntryView>, entry: LogEntryView, cutoff: Seq<char>)
    ensures
        outdated_names(entries.push(entry), cutoff) == if is_outdated(entry, cutoff) {
            outdated_names(entries, cutoff).push(entry.name->0)
        } else {
            outdated_names(entries, cutoff)
        },
{
    entries.lemma_filter_push(entry, |e: LogEntryView| is_outdated(e, cutoff));
    assert(is_outdated(entry, cutoff) ==> outdated_names(entries.push(entry), cutoff)
        =~= outdated_names(entries, cutoff).push(entry.name->0));
}

/// Whether `name` has the form that the names of log files have.
pub fn is_daily_log_name(name: &str) -> (daily: bool)
    ensures
        daily == is_daily(name@),
{
    let len: usize = name.unicode_len();
    if len != LOG_NAME_FORM.unicode_len() {
        return false;
    }
    for i in 0..len
        invariant
            len == name@.len(),
            len == LOG_NAME_FORM@.len(),
            forall|j: int| 0 <= j < i ==> fits(#[trigger] name@[j], LOG_NAME_FORM@[j]),
    {
        let c = name.get_char(i);
        let form = LOG_NAME_FORM.get_char(i);
        let fit = if form == 'd' {
            '0' <= c && c <= '9'
        } else {
            c == form
        };
        if !fit {
            assert(!fits(name@[i as int], LOG_NAME_FORM@[i as int]));
            return false;
        }
    }
    true
}

/// Whether `a` comes before `b` in the order of strings.
fn comes_before(a: &str, b: &str) -> (less: bool)
    ensures
        less == before(a@, b@),
{
    let a_len: usize = a.unicode_len();
    let b_len: usize = b.unicode_len();
    let mut k: usize = 0;
    while k < a_len && k < b_len
        invariant
            a_len == a@.len(),
            b_len == b@.len(),
            k <= a_len,
            k <= b_len,
            forall|i: int| 0 <= i < k ==> a@[i] == b@[i],
        decreases a_len - k,
    {
        let x = a.get_char(k);
        let y = b.get_char(k);
        if x != y {
            proof {
                lemma_first_difference(a@, b@, k as int);
            }
            return x < y;
        }
        k = k + 1;
    }
    proof {
        lemma_first_difference(a@, b@, k as int);
    }
    k < b_len
}

/// The names of the log files to remove from a directory with these `entries`.
pub fn prune_old_logs(entries: &Vec<LogEntry>, cutoff_log_name: &str) -> (names: Vec<String>)
    ensures
        text::string_views(names@) == outdated_names(entry_views(entries@), cutoff_log_name@),
{
    let ghost views = entry_views(entries@);
    let mut names: Vec<String> = Vec::new();
    assert(text::string_views(names@) =~= outdated_names(views.take(0), cutoff_log_name@));
    for i in 0..entries.len()
        invariant
            views == entry_views(entries@),
            text::string_views(names@) == outdated_names(views.take(i as int), cutoff_log_name@),
    {
        let entry = &entries[i];
        proof {
            assert(views.take(i + 1) =~= views.take(i as int).push(entry@));
            lemma_outdated_push(views.take(i as int), entry@, cutoff_log_name@);
        }
        if let Some(name) = &entry.name {
            if is_daily_log_name(name.as_str()) && comes_before(name.as_str(), cutoff_log_name)
                && entry.is_file {
                let outdated = name.clone();
                proof {
                    text::lemma_string_views_push(names@, outdated);
                }
                names.push(outdated);
            }
        }
    }
    assert(views.take(entries@.len() as int) =~= views);
    names
}

/// Whether `name` spells the parts of `time`, whose year has no sign.
spec fn spells(name: Seq<char>, time: LocalTime) -> bool {
    let year = time.year as int;
    &&& name.len() == 23
    &&& name[0] == clock::two_digits(year / 100)[0]
    &&& name[1] == clock::two_digits(year / 100)[1]
    &&& name[2] == clock::two_digits(year % 100)[0]
    &&& name[3] == clock::two_digits(year % 100)[1]
    &&& name[4] == '-'
    &&& name[5] == clock::two_digits(time.month as int)[0]
    &&& name[6] == clock::two_digits(time.month as int)[1]
    &&& name[7] == '-'
    &&& name[8] == clock::two_digits(time.day as int)[0]
    &&& name[9] == clock::two_digits(time.day as int)[1]
    &&& name[10] == '_'
    &&& name[11] == clock::two_digits(time.hour as int)[0]
    &&& name[12] == clock::two_digits(time.hour as int)[1]
    &&& name[13] == '-'
    &&& name[14] == clock::two_digits(time.minute as int)[0]
    &&& name[15] == clock::two_digits(time.minute as int)[1]
    &&& name[16] == '-'
    &&& name[17] == clock::two_digits(time.second as int)[0]
    &&& name[18] == clock::two_digits(time.second as int)[1]
    &&& name[19] == '.'
    &&& name[20] == 'l'
    &&& name[21] == 'o'
    &&& name[22] == 'g'
}

/// A log file's name spells the time at which its run started.
proof fn lemma_name_spells(time: LocalTime)
    requires
        time.valid(),
        time.year >= 0,
    ensures
        spells(time.log_name(), time),
{
    reveal_strlit("-");
    reveal_strlit("_");
    reveal_strlit(".log");
}

/// The length and the first character of a name that a signed year leads.
proof fn lemma_signed_name(time: LocalTime)
    requires
        time.valid(),
        time.year < 0,
    ensures
        time.log_name().len() == 24,
        time.log_name()[0] == '-',
{
    reveal_strlit("-");
    reveal_strlit("_");
    reveal_strlit(".log");
}

/// Two digits are digits.
proof fn lemma_two_digits(n: int)
    requires
        0 <= n < 100,
    ensures
        fits(clock::two_digits(n)[0], 'd'),
        fits(clock::two_digits(n)[1], 'd'),
{
    text::lemma_digit_order((n / 10) as nat, 0);
    text::lemma_digit_order((n % 10) as nat, 0);
}

/// Numbers of two digits sort as their digits do.
proof fn lemma_two_digits_order(n: int, m: int)
    requires
        0 <= n < 100,
        0 <= m < 100,
    ensures
        digits_sort(n, m),
{
    text::lemma_digit_order((n / 10) as nat, (m / 10) as nat);
    text::lemma_digit_order((n % 10) as nat, (m % 10) as nat);
}

/// Whether two digits that stand for `n` sort as those that stand for `m` do.
spec fn digits_sort(n: int, m: int) -> bool {
    let x = clock::two_digits(n);
    let y = clock::two_digits(m);
    &&& x[0] == y[0] && x[1] == y[1] ==> n == m
    &&& x[0] < y[0] ==> n < m
    &&& x[0] == y[0] && x[1] < y[1] ==> n < m
}

/// The parts of two times sort as their digits do.
proof fn lemma_parts_order(a: LocalTime, b: LocalTime)
    requires
        a.valid(),
        b.valid(),
        a.year >= 0,
        b.year >= 0,
    ensures
        digits_sort(a.year as int / 100, b.year as int / 100),
        digits_sort(a.year as int % 100, b.year as int % 100),
        digits_sort(a.month as int, b.month as int),
        digits_sort(a.day as int, b.day as int),
        digits_sort(a.hour as int, b.hour as int),
        digits_sort(a.minute as int, b.minute as int),
        digits_sort(a.second as int, b.second as int),
{
    lemma_two_digits_order(a.year as int / 100, b.year as int / 100);
    lemma_two_digits_order(a.year as int % 100, b.year as int % 100);
    lemma_two_digits_order(a.month as int, b.month as int);
    lemma_two_digits_order(a.day as int, b.day as int);
    lemma_two_digits_order(a.hour as int, b.hour as int);
    lemma_two_digits_order(a.minute as int, b.minute as int);
    lemma_two_digits_order(a.second as int, b.second as int);
}

/// Every run whose year has no sign gives its log file a name of the form that
/// the clean-up looks for, and no other run does.
pub proof fn log_names_have_the_form(time: LocalTime)
    requires
        time.valid(),
    ensures
        is_daily(time.log_name()) <==> time.year >= 0,
{
    reveal_strlit("dddd-dd-dd_dd-dd-dd.log");
    if time.year >= 0 {
        lemma_name_spells(time);
        lemma_two_digits(time.year as int / 100);
        lemma_two_digits(time.year as int % 100);
        lemma_two_digits(time.month as int);
        lemma_two_digits(time.day as int);
        lemma_two_digits(time.hour as int);
        lemma_two_digits(time.minute as int);
        lemma_two_digits(time.second as int);
    } else {
        lemma_signed_name(time);
    }
}

/// Two strings of one length that are not the same differ in a first place.
proof fn lemma_find_difference(a: Seq<char>, b: Seq<char>) -> (k: int)
    requires
        a.len() == b.len(),
        a != b,
    ensures
        0 <= k < a.len(),
        forall|i: int| 0 <= i < k ==> a[i] == b[i],
        a[k] != b[k],
    decreases a.len(),
{
    if a.len() == 0 {
        assert(a =~= b);
        0
    } else if a[0] != b[0] {
        0
    } else {
        if a.drop_first() == b.drop_first() {
            assert(a =~= seq![a[0]] + a.drop_first());
            assert(b =~= seq![b[0]] + b.drop_first());
        }
        let k = lemma_find_difference(a.drop_first(), b.drop_first());
        assert forall|i: int| 0 <= i < k + 1 implies a[i] == b[i] by {
            if i > 0 {
                assert(a.drop_first()[i - 1] == b.drop_first()[i - 1]);
            }
        }
        k + 1
    }
}

/// The first character in which two names differ decides which time is earlier.
proof fn lemma_earlier_by_character(
    a: LocalTime,
    b: LocalTime,
    x: Seq<char>,
    y: Seq<char>,
    k: int,
)
    requires
        a.valid(),
        b.valid(),
        a.year >= 0,
        b.year >= 0,
        spells(x, a),
        spells(y, b),
        0 <= k < 23,
        forall|i: int| 0 <= i < k ==> x[i] == y[i],
        x[k] < y[k],
    ensures
        a.wall_seconds() < b.wall_seconds(),
{
    lemma_parts_order(a, b);
    clock::lemma_earlier_parts(a, b);
}

/// Times with one name are one time.
proof fn lemma_one_name_one_time(a: LocalTime, b: LocalTime, name: Seq<char>)
    requires
        a.valid(),
        b.valid(),
        a.year >= 0,
        b.year >= 0,
        spells(name, a),
        spells(name, b),
    ensures
        a == b,
{
    lemma_parts_order(a, b);
}

/// The names of log files sort as the times at which their runs started.
pub proof fn log_names_sort_by_time(a: LocalTime, b: LocalTime)
    requires
        a.valid(),
        b.valid(),
        a.year >= 0,
        b.year >= 0,
    ensures
        before(a.log_name(), b.log_name()) <==> a.wall_seconds() < b.wall_seconds(),
{
    let x = a.log_name();
    let y = b.log_name();
    lemma_name_spells(a);
    lemma_name_spells(b);
    if x == y {
        lemma_one_name_one_time(a, b, x);
        lemma_first_difference(x, y, 23);
    } else {
        let k = lemma_find_difference(x, y);
        lemma_first_difference(x, y, k);
        if x[k] < y[k] {
            lemma_earlier_by_character(a, b, x, y, k);
        } else {
            lemma_earlier_by_character(b, a, y, x, k);
        }
    }
}

/// The log file of a run is removed if and only if the run started more than seven
/// days ago.
pub proof fn logs_are_kept_for_the_retention_period(
    started: LocalTime,
    now: LocalTime,
    cutoff: Seq<char>,
)
    requires
        started.valid(),
        started.year >= 0,
        now.valid(),
        clock::is_cutoff_name(cutoff, now),
    ensures
        is_outdated(
            (LogEntryView { name: Some(started.log_name()), is_file: true }),
            cutoff,
        ) <==> started.wall_seconds() < now.wall_seconds() - 86400 * 7,
{
    let limit = choose|limit: LocalTime|
        #[trigger] now.is_days_after(limit, clock::LOG_RETENTION_DAYS as int) && cutoff
            == limit.log_name();
    log_names_have_the_form(started);
    if limit.year >= 0 {
        log_names_sort_by_time(started, limit);
    } else {
        lemma_signed_name(limit);
        lemma_name_spells(started);
        lemma_two_digits(started.year as int / 100);
        clock::lemma_earlier_parts(limit, started);
    }
}

/// A name is one of a log file if and only if it has 23 characters: digits, but for the
/// dashes behind the year, the month, the hour and the minute, the line behind the day,
/// and the ending.
pub proof fn a_log_name_is_digits_and_separators(name: Seq<char>)
    ensures
        is_daily(name) <==> {
            &&& name.len() == 23
            &&& name[4] == '-' && name[7] == '-' && name[10] == '_' && name[13] == '-' && name[16]
                == '-'
            &&& name[19] == '.' && name[20] == 'l' && name[21] == 'o' && name[22] == 'g'
            &&& forall|i: int|
                0 <= i < 19 && i != 4 && i != 7 && i != 10 && i != 13 && i != 16 ==> '0'
                    <= #[trigger] name[i] <= '9'
        },
{
    reveal_strlit("dddd-dd-dd_dd-dd-dd.log");
    if is_daily(name) {
        assert(fits(name[4], '-') && fits(name[7], '-') && fits(name[10], '_'));
        assert(fits(name[13], '-') && fits(name[16], '-') && fits(name[19], '.'));
        assert(fits(name[20], 'l') && fits(name[21], 'o') && fits(name[22], 'g'));
        assert forall|i: int|
            0 <= i < 19 && i != 4 && i != 7 && i != 10 && i != 13 && i != 16 implies '0'
            <= #[trigger] name[i] <= '9' by {
            assert(fits(name[i], LOG_NAME_FORM@[i]));
        }
    }
}

/// Of two names the first character in which they differ decides which comes first, and
/// where they do not differ so far, the shorter one does.
pub proof fn the_first_difference_decides(a: Seq<char>, b: Seq<char>, k: int)
    requires
        0 <= k <= a.len(),
        k <= b.len(),
        a.take(k) == b.take(k),
    ensures
        k < a.len() && k < b.len() && a[k] < b[k] ==> before(a, b) && !before(b, a),
        k == a.len() && k < b.len() ==> before(a, b) && !before(b, a),
        k == a.len() && k == b.len() ==> !before(a, b),
{
    assert forall|i: int| 0 <= i < k implies a[i] == b[i] by {
        assert(a.take(k)[i] == a[i]);
        assert(b.take(k)[i] == b[i]);
    }
    if !(k < a.len() && k < b.len()) || a[k] != b[k] {
        lemma_first_difference(a, b, k);
        lemma_first_difference(b, a, k);
    }
}

/// One more entry of the log directory goes if and only if it is a regular file with the
/// name of a log that comes before the cutoff; what becomes of the others does not
/// depend on it, and nothing goes from an empty directory.
pub proof fn each_entry_is_judged_alone(
    entries: Seq<LogEntryView>,
    entry: LogEntryView,
    cutoff: Seq<char>,
)
    ensures
        outdated_names(Seq::empty(), cutoff) == Seq::<Seq<char>>::empty(),
        entry.is_file && (entry.name matches Some(name) && is_daily(name) && before(name, cutoff))
            ==> outdated_names(entries.push(entry), cutoff) == outdated_names(entries, cutoff).push(
            entry.name->0,
        ),
        !(entry.is_file && (entry.name matches Some(name) && is_daily(name) && before(
            name,
            cutoff,
        ))) ==> outdated_names(entries.push(entry), cutoff) == outdated_names(entries, cutoff),
{
    lemma_outdated_push(entries, entry, cutoff);
    assert(outdated_names(Seq::empty(), cutoff) =~= Seq::<Seq<char>>::empty());
}

/// A listing is told entry by entry, with name and kind.
pub proof fn every_entry_of_a_listing_counts(entries: Seq<LogEntry>, i: int)
    requires
        0 <= i < entries.len(),
    ensures
        entry_views(entries).len() == entries.len(),
        entry_views(entries)[i].is_file == entries[i].is_file,
        entries[i].name is None <==> entry_views(entries)[i].name is None,
        entries[i].name matches Some(name) ==> entry_views(entries)[i].name == Some(name@),
{
}

} // verus!
