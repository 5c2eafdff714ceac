//! The log files of the input method: one file a day, `manbo.log.<date>`, and only the
//! most recent days are kept. Which files go is decided here; the directory is listed and
//! the files are removed by the shell. Dates are `(year, month, day)` as jiff gives them.

use vstd::prelude::*;

use crate::text::{chars_of, has_prefix, string_of_range};

verus! {

/// The prefix of a log file's name; `.YYYY-MM-DD` follows.
pub const FILE_PREFIX: &'static str = "manbo.log";

/// How many days of logs are kept.
pub const KEEP_DAYS: i32 = 7;

/// The date that jiff reads from a text (`str::parse::<jiff::civil::Date>`), as `(year,
/// month, day)`; `None` when the text is not a date.
pub uninterp spec fn parsed_date(text: Seq<char>) -> Option<(i16, i8, i8)>;

/// The date `days` days before a date (jiff's `Date::new` and `Date::checked_sub` with a
/// span of days); `None` when the date is not a valid one or the result leaves jiff's range.
pub uninterp spec fn date_days_before(date: (i16, i8, i8), days: i32) -> Option<(i16, i8, i8)>;

/// Reads a date with jiff's `Date` parser (`FromStr for jiff::civil::Date`). Claimed: the
/// result is the parser's, a function of the text alone, and a date it gives has its month
/// in `1..=12` and its day in `1..=31` (jiff documents both for `Date::month` and
/// `Date::day`).
#[verifier::external_body]
fn parse_date(text: &str) -> (r: Option<(i16, i8, i8)>)
    ensures
        r == parsed_date(text@),
        r matches Some(d) ==> 1 <= d.1 <= 12 && 1 <= d.2 <= 31,
{
    match text.parse::<jiff::civil::Date>() {
        Ok(d) => Some((d.year(), d.month(), d.day())),
        Err(_) => None,
    }
}

/// The date `days` days before `date`, by jiff (`jiff::civil::Date::new`, then
/// `Date::checked_sub` with `Span::new().days(days)`). Claimed: the result is a function
/// of the arguments alone. `Span::days` panics outside `-7_304_484..=7_304_484`, which the
/// `requires` leaves out.
#[verifier::external_body]
fn days_before(date: (i16, i8, i8), days: i32) -> (r: Option<(i16, i8, i8)>)
    requires
        -7_304_484 <= days <= 7_304_484,
    ensures
        r == date_days_before(date, days),
{
    match jiff::civil::Date::new(date.0, date.1, date.2) {
        Ok(d) => match d.checked_sub(jiff::Span::new().days(days)) {
            Ok(e) => Some((e.year(), e.month(), e.day())),
            Err(_) => None,
        },
        Err(_) => None,
    }
}

/// Whether date `a` comes before date `b`.
pub open spec fn date_before(a: (i16, i8, i8), b: (i16, i8, i8)) -> bool {
    ||| a.0 < b.0
    ||| a.0 == b.0 && a.1 < b.1
    ||| a.0 == b.0 && a.1 == b.1 && a.2 < b.2
}

/// Whether date `a` comes before date `b`.
pub fn is_before(a: (i16, i8, i8), b: (i16, i8, i8)) -> (r: bool)
    ensures
        r == date_before(a, b),
{
    a.0 < b.0 || (a.0 == b.0 && a.1 < b.1) || (a.0 == b.0 && a.1 == b.1 && a.2 < b.2)
}

/// The oldest day whose log is kept: `KEEP_DAYS - 1` days before today.
pub fn oldest_kept(today: (i16, i8, i8)) -> (r: Option<(i16, i8, i8)>)
    ensures
        r == date_days_before(today, (KEEP_DAYS - 1) as i32),
{
    days_before(today, KEEP_DAYS - 1)
}

/// What follows `manbo.log.` in a file's name, when it has that form.
pub open spec fn date_part(name: Seq<char>) -> Option<Seq<char>> {
    let prefix = FILE_PREFIX@ + "."@;
    if has_prefix(name, prefix) {
        Some(name.skip(prefix.len() as int))
    } else {
        None
    }
}

/// The date of a log file, read from its name; `None` for other names.
pub open spec fn log_date_of(name: Seq<char>) -> Option<(i16, i8, i8)> {
    match date_part(name) {
        Some(rest) => parsed_date(rest),
        None => None,
    }
}

/// The date in a log file's name (`manbo.log.2026-09-04`); `None` when the name is not
/// of that form.
pub fn log_date(name: &str) -> (r: Option<(i16, i8, i8)>)
    ensures
        r == log_date_of(name@),
{
    let cs = chars_of(name);
    let prefix = chars_of("manbo.log.");
    proof {
        reveal_strlit("manbo.log");
        reveal_strlit(".");
        reveal_strlit("manbo.log.");
        assert(prefix@ =~= FILE_PREFIX@ + "."@);
    }
    let n = prefix.len();
    if cs.len() < n {
        return None;
    }
    let mut i: usize = 0;
    while i < n
        invariant
            i <= n == prefix@.len() <= cs@.len(),
            cs@ == name@,
            prefix@ == FILE_PREFIX@ + "."@,
            forall|j: int| 0 <= j < i ==> cs@[j] == prefix@[j],
        decreases n - i,
    {
        if cs[i] != prefix[i] {
            proof {
                assert(cs@.take(n as int)[i as int] != prefix@[i as int]);
            }
            return None;
        }
        i = i + 1;
    }
    assert(cs@.take(n as int) =~= prefix@);
    let rest = string_of_range(&cs, n, cs.len());
    assert(rest@ =~= name@.skip(n as int));
    parse_date(rest.as_str())
}

/// A file of the log directory is removed when its name is a log file's and its date
/// comes before the oldest day kept; names that do not parse are left alone.
pub open spec fn removed(name: Seq<char>, oldest: (i16, i8, i8)) -> bool {
    log_date_of(name) matches Some(d) && date_before(d, oldest)
}

/// Whether the file named `name` is to be removed when `oldest` is the oldest day kept.
pub fn should_remove(name: &str, oldest: (i16, i8, i8)) -> (r: bool)
    ensures
        r == removed(name@, oldest),
{
    match log_date(name) {
        Some(d) => is_before(d, oldest),
        None => false,
    }
}

/// The files among `names` that are log files dated before `oldest`, in the order listed.
pub fn files_dated_before(names: &Vec<String>, oldest: (i16, i8, i8)) -> (r: Vec<String>)
    ensures
        r@.map_values(|s: String| s@) == names@.map_values(|s: String| s@).filter(
            |n: Seq<char>| removed(n, oldest),
        ),
{
    let mut out: Vec<String> = Vec::new();
    let ghost all = names@.map_values(|s: String| s@);
    let mut i: usize = 0;
    while i < names.len()
        invariant
            i <= names@.len(),
            all == names@.map_values(|s: String| s@),
            out@.map_values(|s: String| s@) == all.take(i as int).filter(
                |n: Seq<char>| removed(n, oldest),
            ),
        decreases names.len() - i,
    {
        let ghost before = out@;
        proof {
            reveal(Seq::filter);
            assert(all.take(i + 1).drop_last() =~= all.take(i as int));
            assert(all.take(i + 1).last() == names@[i as int]@);
        }
        if should_remove(names[i].as_str(), oldest) {
            out.push(names[i].clone());
            assert(out@.map_values(|s: String| s@) =~= before.map_values(|s: String| s@).push(
                names@[i as int]@,
            ));
        }
        i = i + 1;
    }
    assert(all.take(names@.len() as int) =~= all);
    out
}

/// The files of the log directory to remove, given their names and today's date: those
/// dated before `today - (KEEP_DAYS - 1)`, in the order listed; nothing when that date
/// cannot be computed.
pub fn files_to_remove(names: &Vec<String>, today: (i16, i8, i8)) -> (r: Vec<String>)
    ensures
        match date_days_before(today, (KEEP_DAYS - 1) as i32) {
            None => r@.len() == 0,
            Some(oldest) => r@.map_values(|s: String| s@) == names@.map_values(|s: String| s@).filter(
                |n: Seq<char>| removed(n, oldest),
            ),
        },
{
    match oldest_kept(today) {
        Some(oldest) => files_dated_before(names, oldest),
        None => Vec::new(),
    }
}

/// The level of detail of the log.
#[derive(Debug, Clone, Copy, PartialEq, Eq, Structural)]
pub enum LogLevel {
    Info,
    Debug,
}

/// The filter directive of a level: in debug the network libraries still log only at info,
/// or one cloud request would fill dozens of lines.
pub fn filter_directive(level: LogLevel) -> (d: &'static str)
    ensures
        d@ == match level {
            LogLevel::Info => "info"@,
            LogLevel::Debug => "debug,hyper=info,hyper_util=info,reqwest=info,h2=info,rustls=info"@,
        },
{
    match level {
        LogLevel::Info => "info",
        LogLevel::Debug => "debug,hyper=info,hyper_util=info,reqwest=info,h2=info,rustls=info",
    }
}

} // verus!
