//! Log files: what they are called, when they are rotated, when they are swept.
//!
//! A process logs to `zeron-{mode}-YYYY-MM-DD.log`, or, where another live process
//! holds that file, to `zeron-{mode}.{pid}.log`. A file that has grown too large is
//! renamed to end in `.log.1`. All of them are swept once they are a week old.

use crate::mode::LogMode;
use crate::places::{picks, picks_are_unique, picks_next};
use crate::text::{
    begins, chars_of, decimal, decimal_is_digits, decimals_have_no_leading_zero, ends, ends_with,
    frames, is_digit, number, padded, padded_is_digits, padded_is_read_back,
    padding_fills_up_with_zeros, push_decimal, same, starts_with,
};
use vstd::prelude::*;

verus! {

/// The days that a log is kept.
pub const KEEP_DAYS: u64 = 7;

/// The bytes above which a log is rotated before it is written to.
pub const MAX_BYTES: u64 = 25 * 1024 * 1024;

/// The first year that a date can have.
pub const MIN_YEAR: i32 = -262143;

/// The last year that a date can have.
pub const MAX_YEAR: i32 = 262142;

/// The proleptic Gregorian year `year` has a 29th of February.
pub open spec fn is_leap(year: int) -> bool {
    year % 4 == 0 && (year % 100 != 0 || year % 400 == 0)
}

/// The days of the month `month`.
pub open spec fn month_days(year: int, month: int) -> int {
    if month == 2 {
        if is_leap(year) {
            29
        } else {
            28
        }
    } else if month == 4 || month == 6 || month == 9 || month == 11 {
        30
    } else {
        31
    }
}

/// A day of the proleptic Gregorian calendar.
pub struct Day {
    pub year: int,
    pub month: int,
    pub day: int,
}

impl Day {
    /// There is such a day, and its year is in range.
    pub open spec fn exists_in_calendar(self) -> bool {
        &&& MIN_YEAR <= self.year <= MAX_YEAR
        &&& 1 <= self.month <= 12
        &&& 1 <= self.day <= month_days(self.year, self.month)
    }

    /// The year, in four digits, or with a sign in front where it is negative or
    /// takes more.
    pub open spec fn year_text(self) -> Seq<char> {
        if 0 <= self.year <= 9999 {
            padded(self.year as nat, 4)
        } else if self.year < 0 {
            seq!['-'] + padded((-self.year) as nat, 4)
        } else {
            seq!['+'] + padded(self.year as nat, 4)
        }
    }

    /// The date in the form `YYYY-MM-DD`.
    pub open spec fn text(self) -> Seq<char> {
        self.year_text() + seq!['-'] + padded(self.month as nat, 2) + seq!['-'] + padded(
            self.day as nat,
            2,
        )
    }
}

/// The date that a log is opened on.
#[derive(Clone, Copy, Debug)]
pub struct LogDate {
    year: i32,
    month: u32,
    day: u32,
}

impl View for LogDate {
    type V = Day;

    closed spec fn view(&self) -> Day {
        Day { year: self.year as int, month: self.month as int, day: self.day as int }
    }
}

impl LogDate {
    #[verifier::type_invariant]
    spec fn inv(self) -> bool {
        self@.exists_in_calendar()
    }

    /// The date of these numbers, where there is one.
    pub fn new(year: i32, month: u32, day: u32) -> (r: Option<LogDate>)
        ensures
            ({
                let want = Day { year: year as int, month: month as int, day: day as int };
                &&& r is Some <==> want.exists_in_calendar()
                &&& r matches Some(date) ==> date@ == want
            }),
    {
        let leap = year % 4 == 0 && (year % 100 != 0 || year % 400 == 0);
        let days: u32 = if month == 2 {
            if leap {
                29
            } else {
                28
            }
        } else if month == 4 || month == 6 || month == 9 || month == 11 {
            30
        } else {
            31
        };
        if MIN_YEAR <= year && year <= MAX_YEAR && 1 <= month && month <= 12 && 1 <= day && day
            <= days {
            Some(LogDate { year, month, day })
        } else {
            None
        }
    }

    /// The date in the form `YYYY-MM-DD`.
    pub fn text(self) -> (r: String)
        ensures
            r@ == self@.text(),
            self@.exists_in_calendar(),
    {
        proof {
            use_type_invariant(&self);
        }
        format_date(self.year, self.month, self.day)
    }
}

/// `chrono::NaiveDate::format` with `%Y-%m-%d`, on the date that
/// `chrono::NaiveDate::from_ymd_opt` makes of the numbers, which there is for every
/// day of the calendar in range: the year in at least four digits, signed where it
/// is negative or above 9999, then the month and the day in two digits each.
#[verifier::external_body]
fn format_date(year: i32, month: u32, day: u32) -> (r: String)
    requires
        (Day { year: year as int, month: month as int, day: day as int }).exists_in_calendar(),
    ensures
        r@ == (Day { year: year as int, month: month as int, day: day as int }).text(),
{
    chrono::NaiveDate::from_ymd_opt(year, month, day).unwrap().format("%Y-%m-%d").to_string()
}

/// The name of the log of mode `mode` on the day `day`.
pub open spec fn daily_text(mode: LogMode, day: Day) -> Seq<char> {
    "zeron-"@ + mode.name() + "-"@ + day.text() + ".log"@
}

/// The name of the log of mode `mode` on the day `date`.
pub fn daily_name(mode: LogMode, date: LogDate) -> (r: String)
    ensures
        r@ == daily_text(mode, date@),
        date@.exists_in_calendar(),
        is_component(r@),
{
    let mut out = "zeron-".to_owned();
    out.append(mode.as_str());
    out.append("-");
    out.append(date.text().as_str());
    out.append(".log");
    proof {
        logs_are_components(mode, date@, 0);
    }
    out
}

/// The name of the log of mode `mode` that the process `pid` writes where another
/// live process holds the day's log.
pub open spec fn overflow_text(mode: LogMode, pid: u32) -> Seq<char> {
    "zeron-"@ + mode.name() + "."@ + decimal(pid as nat) + ".log"@
}

/// The name of the log of mode `mode` that the process `pid` writes where another
/// live process holds the day's log.
pub fn overflow_name(mode: LogMode, pid: u32) -> (r: String)
    ensures
        r@ == overflow_text(mode, pid),
        is_component(r@),
{
    let mut out = "zeron-".to_owned();
    out.append(mode.as_str());
    out.append(".");
    push_decimal(&mut out, pid as u64);
    out.append(".log");
    proof {
        logs_are_components(mode, Day { year: 0, month: 1, day: 1 }, pid);
    }
    out
}

/// The place of the last dot in `name`, -1 where there is none.
pub open spec fn last_dot(name: Seq<char>) -> int
    decreases name.len(),
{
    if name.len() == 0 {
        -1
    } else if name.last() == '.' {
        name.len() - 1
    } else {
        last_dot(name.drop_last())
    }
}

/// `name` is a single component of a path: it holds no separator.
pub open spec fn is_component(name: Seq<char>) -> bool {
    forall|i: int| 0 <= i < name.len() ==> #[trigger] name[i] != '/' && name[i] != '\\'
}

/// Whether `name` is a single component of a path.
pub fn component(name: &str) -> (r: bool)
    ensures
        r == is_component(name@),
{
    let chars = chars_of(name);
    let mut i: usize = 0;
    while i < chars.len()
        invariant
            i <= chars@.len(),
            chars@ == name@,
            forall|j: int| 0 <= j < i ==> #[trigger] chars@[j] != '/' && chars@[j] != '\\',
        decreases chars@.len() - i,
    {
        if chars[i] == '/' || chars[i] == '\\' {
            assert(name@[i as int] == '/' || name@[i as int] == '\\');
            return false;
        }
        i += 1;
    }
    true
}

/// The name that the file `name` is rotated to: its extension, if it has one, gives
/// way to `log.1`. A dot at the start begins no extension. What names no file is left
/// alone. Two dots that stand alone in front of the extension name the directory
/// above, and nothing but them is left.
pub open spec fn rotated_text(name: Seq<char>) -> Seq<char>
    recommends
        is_component(name),
{
    if name == ""@ || name == "."@ {
        name
    } else if last_dot(name) == 1 && name[0] == '.' {
        ".."@
    } else if last_dot(name) > 0 {
        name.take(last_dot(name)) + ".log.1"@
    } else {
        name + ".log.1"@
    }
}

/// The name that the file `name` is rotated to.
pub fn rotated_name(name: &str) -> (r: String)
    requires
        is_component(name@),
    ensures
        r@ == rotated_text(name@),
{
    if same(name, "") || same(name, ".") {
        return name.to_owned();
    }
    let chars = chars_of(name);
    let mut end: usize = chars.len();
    assert(name@.take(end as int) =~= name@);
    while end > 0 && chars[end - 1] != '.'
        invariant
            end <= chars@.len(),
            chars@ == name@,
            last_dot(name@) == last_dot(name@.take(end as int)),
        decreases end,
    {
        assert(name@.take(end as int).drop_last() =~= name@.take(end - 1));
        end -= 1;
    }
    assert(last_dot(name@) == end - 1);
    if end == 2 && chars[0] == '.' {
        return "..".to_owned();
    }
    let stem = if end > 1 {
        name.substring_char(0, end - 1)
    } else {
        name
    };
    proof {
        if end > 1 {
            assert(name@.subrange(0, end - 1) =~= name@.take(end - 1));
        }
    }
    let mut out = stem.to_owned();
    out.append(".log.1");
    out
}

/// The name that the file `name` of `len` bytes is to be renamed to where it is
/// larger than `limit`. A file whose size is not known stays.
pub fn rotate_if_oversize(name: &str, len: Option<u64>, limit: u64) -> (r: Option<String>)
    requires
        is_component(name@),
    ensures
        r is Some <==> (len matches Some(len) && len > limit),
        r matches Some(to) ==> to@ == rotated_text(name@),
{
    match len {
        Some(len) => if len > limit {
            Some(rotated_name(name))
        } else {
            None
        },
        None => None,
    }
}

/// A file in the log directory. Its name is missing where it is not Unicode, its
/// age, in nanoseconds since it was last written, where it cannot be told or lies
/// in the future.
#[derive(Debug)]
pub struct LogFile {
    pub name: Option<String>,
    pub age: Option<u128>,
}

/// The name `name` is that of a log.
pub open spec fn is_log_name(name: Seq<char>) -> bool {
    starts_with(name, "zeron-"@) && (ends_with(name, ".log"@) || ends_with(name, ".log.1"@))
}

/// The age above which a log is stale, in nanoseconds.
pub open spec fn max_age() -> int {
    KEEP_DAYS * 86400 * 1_000_000_000
}

impl LogFile {
    /// The file is a log that has not been written to for too long.
    pub open spec fn is_stale(self) -> bool {
        &&& self.name matches Some(name) && is_log_name(name@)
        &&& self.age matches Some(age) && age > max_age()
    }

    /// Whether the file is a log that has not been written to for too long.
    pub fn stale(&self) -> (r: bool)
        ensures
            r == self.is_stale(),
    {
        let named = match &self.name {
            Some(name) => log_name(name.as_str()),
            None => false,
        };
        match self.age {
            Some(age) => named && age > KEEP_DAYS as u128 * 86400 * 1_000_000_000,
            None => false,
        }
    }
}

/// Whether the name `name` is that of a log.
pub fn log_name(name: &str) -> (r: bool)
    ensures
        r == is_log_name(name@),
{
    begins(name, "zeron-") && (ends(name, ".log") || ends(name, ".log.1"))
}

/// The places of the files to remove: the stale logs, from first to last.
pub fn prune_old_logs(files: &Vec<LogFile>) -> (r: Vec<usize>)
    ensures
        picks(r@, files@.len() as int, |i: int| files@[i].is_stale()),
{
    let mut stale: Vec<usize> = Vec::new();
    let mut i: usize = 0;
    let ghost chosen = |i: int| files@[i].is_stale();
    while i < files.len()
        invariant
            i <= files@.len(),
            chosen == (|i: int| files@[i].is_stale()),
            picks(stale@, i as int, chosen),
        decreases files@.len() - i,
    {
        proof {
            picks_next(stale@, i, chosen);
        }
        if files[i].stale() {
            stale.push(i);
        }
        i += 1;
    }
    stale
}

/// Every log lies in the log directory itself: its name is a single component of a
/// path.
pub proof fn logs_are_components(mode: LogMode, day: Day, pid: u32)
    requires
        day.exists_in_calendar(),
    ensures
        is_component(daily_text(mode, day)),
        is_component(overflow_text(mode, pid)),
{
    reveal_strlit("zeron-");
    reveal_strlit("headed");
    reveal_strlit("headless");
    reveal_strlit("mcp");
    reveal_strlit("cli");
    reveal_strlit("-");
    reveal_strlit(".");
    reveal_strlit(".log");
    let year = (if day.year < 0 { -day.year } else { day.year }) as nat;
    padded_is_digits(year, 4);
    padded_is_digits(day.month as nat, 2);
    padded_is_digits(day.day as nat, 2);
    decimal_is_digits(pid as nat);
    digits_are_components(padded(year, 4));
    digits_are_components(padded(day.month as nat, 2));
    digits_are_components(padded(day.day as nat, 2));
    digits_are_components(decimal(pid as nat));
    assert(is_component("zeron-"@) && is_component(mode.name()) && is_component("-"@)
        && is_component("."@) && is_component(".log"@));
    assert(is_component(seq!['-']) && is_component(seq!['+']));
    assert forall|a: Seq<char>, b: Seq<char>|
        is_component(a) && is_component(b) implies #[trigger] is_component(a + b) by {}
    assert(is_component(day.year_text()));
}

proof fn digits_are_components(digits: Seq<char>)
    requires
        forall|i: int| 0 <= i < digits.len() ==> is_digit(#[trigger] digits[i]),
    ensures
        is_component(digits),
{
    assert forall|i: int| 0 <= i < digits.len() implies #[trigger] digits[i] != '/' && digits[i]
        != '\\' by {
        assert(is_digit(digits[i]));
    }
}

/// The part of a log's name that begins with the mode, behind which `rest` follows.
spec fn tagged(mode: LogMode, rest: Seq<char>) -> Seq<char> {
    "zeron-"@ + mode.name() + rest
}

/// What a daily log's name has behind its mode.
spec fn daily_rest(day: Day) -> Seq<char> {
    seq!['-'] + day.text() + ".log"@
}

/// What an overflow log's name has behind its mode.
spec fn overflow_rest(pid: u32) -> Seq<char> {
    seq!['.'] + decimal(pid as nat) + ".log"@
}

proof fn names_are_tagged(mode: LogMode, day: Day, pid: u32)
    ensures
        daily_text(mode, day) == tagged(mode, daily_rest(day)),
        overflow_text(mode, pid) == tagged(mode, overflow_rest(pid)),
        daily_rest(day)[0] == '-',
        overflow_rest(pid)[0] == '.',
{
    reveal_strlit("-");
    reveal_strlit(".");
    assert("-"@ =~= seq!['-']);
    assert("."@ =~= seq!['.']);
    assert(daily_text(mode, day) =~= tagged(mode, daily_rest(day)));
    assert(overflow_text(mode, pid) =~= tagged(mode, overflow_rest(pid)));
}

/// The mode and what follows it can be told from a log's name.
proof fn tags_are_told_apart(mode: LogMode, rest: Seq<char>, other: LogMode, other_rest: Seq<char>)
    requires
        rest.len() > 0,
        other_rest.len() > 0,
        rest[0] == '-' || rest[0] == '.',
        other_rest[0] == '-' || other_rest[0] == '.',
        tagged(mode, rest) == tagged(other, other_rest),
    ensures
        mode == other,
        rest == other_rest,
{
    reveal_strlit("zeron-");
    reveal_strlit("headed");
    reveal_strlit("headless");
    reveal_strlit("mcp");
    reveal_strlit("cli");
    let a = tagged(mode, rest);
    let b = tagged(other, other_rest);
    assert(a[6] == mode.name()[0]);
    assert(b[6] == other.name()[0]);
    if mode != other {
        assert(a[10] == b[10]);
        assert(mode.name()[4] == other.name()[4]);
        assert(false);
    }
    assert(rest =~= a.skip(6int + mode.name().len()));
    assert(other_rest =~= b.skip(6int + other.name().len()));
}

proof fn two_digits(n: nat)
    requires
        n < 100,
    ensures
        padded(n, 2).len() == 2,
{
    reveal_with_fuel(decimal, 3);
}

/// The year of a date can be told from its text.
proof fn years_are_told_apart(a: Day, b: Day)
    requires
        a.year_text() == b.year_text(),
    ensures
        a.year == b.year,
{
    let x = (if a.year < 0 { -a.year } else { a.year }) as nat;
    let y = (if b.year < 0 { -b.year } else { b.year }) as nat;
    padded_is_read_back(x, 4);
    padded_is_read_back(y, 4);
    padded_is_digits(x, 4);
    padded_is_digits(y, 4);
    let s = a.year_text();
    let t = b.year_text();
    assert(is_digit(padded(x, 4)[0]) && is_digit(padded(y, 4)[0]));
    assert(is_digit(s[0]) <==> 0 <= a.year <= 9999);
    assert(is_digit(t[0]) <==> 0 <= b.year <= 9999);
    if !is_digit(s[0]) {
        assert(s[0] == '-' <==> a.year < 0);
        assert(t[0] == '-' <==> b.year < 0);
        assert(s.drop_first() =~= padded(x, 4));
        assert(t.drop_first() =~= padded(y, 4));
    }
}

/// The day can be told from the text of a date.
proof fn dates_are_told_apart(a: Day, b: Day)
    requires
        a.exists_in_calendar(),
        b.exists_in_calendar(),
        a.text() == b.text(),
    ensures
        a == b,
{
    two_digits(a.month as nat);
    two_digits(a.day as nat);
    two_digits(b.month as nat);
    two_digits(b.day as nat);
    let s = a.text();
    let t = b.text();
    let n = s.len();
    assert(s.take(n - 6) =~= a.year_text());
    assert(t.take(n - 6) =~= b.year_text());
    assert(s.subrange(n - 5, n - 3) =~= padded(a.month as nat, 2));
    assert(t.subrange(n - 5, n - 3) =~= padded(b.month as nat, 2));
    assert(s.skip(n - 2) =~= padded(a.day as nat, 2));
    assert(t.skip(n - 2) =~= padded(b.day as nat, 2));
    years_are_told_apart(a, b);
    padded_is_read_back(a.month as nat, 2);
    padded_is_read_back(b.month as nat, 2);
    padded_is_read_back(a.day as nat, 2);
    padded_is_read_back(b.day as nat, 2);
}

/// Each mode has a log of its own each day: no two of them share a name.
pub proof fn daily_names_are_unique(mode: LogMode, day: Day, other: LogMode, other_day: Day)
    requires
        day.exists_in_calendar(),
        other_day.exists_in_calendar(),
        daily_text(mode, day) == daily_text(other, other_day),
    ensures
        mode == other,
        day == other_day,
{
    names_are_tagged(mode, day, 0);
    names_are_tagged(other, other_day, 0);
    tags_are_told_apart(mode, daily_rest(day), other, daily_rest(other_day));
    let s = daily_rest(day);
    let t = daily_rest(other_day);
    reveal_strlit(".log");
    assert(s.subrange(1, s.len() - 4) =~= day.text());
    assert(t.subrange(1, t.len() - 4) =~= other_day.text());
    dates_are_told_apart(day, other_day);
}

/// Each process has an overflow log of its own: no two of them share a name, and
/// none has the name of a daily log.
pub proof fn overflow_names_are_unique(
    mode: LogMode,
    pid: u32,
    other: LogMode,
    other_pid: u32,
    day: Day,
)
    ensures
        overflow_text(mode, pid) == overflow_text(other, other_pid) ==> mode == other && pid
            == other_pid,
        overflow_text(mode, pid) != daily_text(other, day),
{
    names_are_tagged(mode, day, pid);
    names_are_tagged(other, day, other_pid);
    if overflow_text(mode, pid) == daily_text(other, day) {
        tags_are_told_apart(mode, overflow_rest(pid), other, daily_rest(day));
    }
    if overflow_text(mode, pid) == overflow_text(other, other_pid) {
        tags_are_told_apart(mode, overflow_rest(pid), other, overflow_rest(other_pid));
        let s = overflow_rest(pid);
        let t = overflow_rest(other_pid);
        reveal_strlit(".log");
        assert(s.subrange(1, s.len() - 4) =~= decimal(pid as nat));
        assert(t.subrange(1, t.len() - 4) =~= decimal(other_pid as nat));
        padded_is_read_back(pid as nat, 0);
        padded_is_read_back(other_pid as nat, 0);
    }
}

/// A daily log is rotated to its own name with `.1` behind it, which is the name
/// of no daily or overflow log: no log is opened under the name of a rotated one.
pub proof fn rotation_leaves_the_live_names(
    mode: LogMode,
    day: Day,
    other: LogMode,
    other_day: Day,
    pid: u32,
)
    ensures
        rotated_text(daily_text(mode, day)) == daily_text(mode, day) + ".1"@,
        rotated_text(daily_text(mode, day)) != daily_text(other, other_day),
        rotated_text(daily_text(mode, day)) != overflow_text(other, pid),
{
    reveal_strlit("");
    reveal_strlit(".");
    reveal_strlit("..");
    reveal_strlit(".1");
    reveal_strlit(".log");
    reveal_strlit(".log.1");
    reveal_strlit("zeron-");
    let name = daily_text(mode, day);
    let n = name.len() as int;
    reveal_with_fuel(last_dot, 4);
    assert(name[n - 4] == '.');
    assert(name[n - 3] == 'l');
    assert(name[n - 2] == 'o');
    assert(name[n - 1] == 'g');
    assert(last_dot(name) == n - 4) by {
        let a = name.drop_last();
        let b = a.drop_last();
        let c = b.drop_last();
        assert(name.last() == 'g' && a.last() == 'o' && b.last() == 'l' && c.last() == '.');
        assert(last_dot(c) == n - 4);
    }
    assert(name.take(n - 4) + ".log.1"@ =~= name + ".1"@);
    assert(rotated_text(name).last() == '1');
    assert(daily_text(other, other_day).last() == 'g');
    assert(overflow_text(other, pid).last() == 'g');
}

/// Every log that a process can make is known to the sweep: daily logs, overflow
/// logs, and daily logs that were rotated away.
pub proof fn every_log_is_swept(mode: LogMode, day: Day, pid: u32)
    ensures
        is_log_name(daily_text(mode, day)),
        is_log_name(overflow_text(mode, pid)),
        is_log_name(rotated_text(daily_text(mode, day))),
{
    rotation_leaves_the_live_names(mode, day, mode, day, pid);
    let daily = daily_text(mode, day);
    let overflow = overflow_text(mode, pid);
    let rotated = rotated_text(daily);
    reveal_strlit("zeron-");
    reveal_strlit(".log");
    reveal_strlit(".log.1");
    reveal_strlit(".1");
    assert(daily.take(6) =~= "zeron-"@);
    assert(overflow.take(6) =~= "zeron-"@);
    assert(rotated.take(6) =~= "zeron-"@);
    assert(daily.skip(daily.len() - 4) =~= ".log"@);
    assert(overflow.skip(overflow.len() - 4) =~= ".log"@);
    assert(rotated.skip(rotated.len() - 6) =~= ".log.1"@);
}

/// The sweep spares every file that was written to within seven days, whatever it is called,
/// and every file that is no log, however old. A log that is older goes. How old it is decides
/// alone: logs of one age go or stay together, and once a log has gone stale it stays so.
pub proof fn the_sweep_goes_by_age_alone(file: LogFile, other: LogFile)
    ensures
        file.is_stale() ==> file.age is Some && file.age->0 > 604_800_000_000_000,
        file.is_stale() ==> file.name is Some && is_log_name(file.name->0@),
        file.name is Some && is_log_name(file.name->0@) && file.age is Some && file.age->0
            > 604_800_000_000_000 ==> file.is_stale(),
        file.name is Some && is_log_name(file.name->0@) && other.name is Some && is_log_name(
            other.name->0@,
        ) && file.age == other.age ==> file.is_stale() == other.is_stale(),
        file.is_stale() && other.name == file.name && other.age is Some && other.age->0
            >= file.age->0 ==> other.is_stale(),
{
}

/// Whatever the sweep picks is a log that was not written to within seven days, and whatever it
/// leaves is none.
pub proof fn the_sweep_spares_recent_files(files: Seq<LogFile>, picked: Seq<usize>, i: usize)
    requires
        picks(picked, files.len() as int, |i: int| files[i].is_stale()),
        i < files.len(),
    ensures
        picked.contains(i) ==> files[i as int].age is Some && files[i as int].age->0
            > 604_800_000_000_000,
        picked.contains(i) ==> files[i as int].name is Some && is_log_name(
            files[i as int].name->0@,
        ),
        !picked.contains(i) ==> files[i as int].name is None || !is_log_name(
            files[i as int].name->0@,
        ) || files[i as int].age is None || files[i as int].age->0 <= 604_800_000_000_000,
{
    picks_are_unique(picked, picked, files.len() as int, |i: int| files[i].is_stale(), i);
}

/// A log is told by how its name begins and ends: whatever stands between the two makes no
/// difference.
pub proof fn logs_are_told_by_both_ends(name: Seq<char>, middle: Seq<char>)
    ensures
        is_log_name("zeron-"@ + middle + ".log"@),
        is_log_name("zeron-"@ + middle + ".log.1"@),
        is_log_name(name) ==> exists|middle: Seq<char>|
            ({
                let start = #[trigger] ("zeron-"@ + middle);
                name == start + ".log"@ || name == start + ".log.1"@
            }),
{
    reveal_strlit("zeron-");
    reveal_strlit(".log");
    reveal_strlit(".log.1");
    let one = "zeron-"@ + middle + ".log"@;
    let two = "zeron-"@ + middle + ".log.1"@;
    assert(one.take(6) =~= "zeron-"@);
    assert(two.take(6) =~= "zeron-"@);
    assert(one.skip(one.len() - 4) =~= ".log"@);
    assert(two.skip(two.len() - 6) =~= ".log.1"@);
    if is_log_name(name) {
        let n = name.len() as int;
        assert(name.take(6) == "zeron-"@);
        assert forall|j: int| 0 <= j < 6 implies #[trigger] name[j] == "zeron-"@[j] by {
            assert(name.take(6)[j] == name[j]);
        }
        let end = if ends_with(name, ".log"@) {
            ".log"@
        } else {
            ".log.1"@
        };
        assert(name.skip(n - end.len()) == end);
        assert forall|j: int| 0 <= j < end.len() implies #[trigger] end[j] == name[n - end.len()
            + j] by {
            assert(name.skip(n - end.len())[j] == name[n - end.len() + j]);
        }
        assert(end[0] == '.');
        assert(name[n - end.len()] == '.');
        assert(n >= 6 + end.len()) by {
            if n < 6 + end.len() {
                let j = n - end.len();
                assert(0 <= j < 6);
                assert(name[j] == "zeron-"@[j]);
            }
        }
        let between = name.subrange(6, n - end.len());
        assert(name =~= "zeron-"@ + between + end);
        assert(name == "zeron-"@ + between + ".log"@ || name == "zeron-"@ + between + ".log.1"@);
    }
}

/// The name of a daily log tells its mode and its day, each in its place, and nothing else.
pub proof fn daily_names_tell_mode_and_day(mode: LogMode, day: Day)
    ensures
        frames(
            "zeron-"@,
            "-"@ + day.text() + ".log"@,
            |mode: LogMode| daily_text(mode, day),
            |mode: LogMode| mode.name(),
        ),
        frames(
            "zeron-"@ + mode.name(),
            ".log"@,
            |day: Day| daily_text(mode, day),
            |day: Day| "-"@ + day.text(),
        ),
{
    let by_mode = |mode: LogMode| daily_text(mode, day);
    assert forall|mode: LogMode| #[trigger] by_mode(mode) == "zeron-"@ + mode.name() + ("-"@
        + day.text() + ".log"@) by {
        assert(by_mode(mode) =~= "zeron-"@ + mode.name() + ("-"@ + day.text() + ".log"@));
    }
    let by_day = |day: Day| daily_text(mode, day);
    assert forall|day: Day| #[trigger] by_day(day) == "zeron-"@ + mode.name() + ("-"@ + day.text())
        + ".log"@ by {
        assert(by_day(day) =~= "zeron-"@ + mode.name() + ("-"@ + day.text()) + ".log"@);
    }
}

/// The name of an overflow log tells its mode and its process, each in its place, and nothing else.
pub proof fn overflow_names_tell_mode_and_process(mode: LogMode, pid: u32)
    ensures
        frames(
            "zeron-"@,
            "."@ + decimal(pid as nat) + ".log"@,
            |mode: LogMode| overflow_text(mode, pid),
            |mode: LogMode| mode.name(),
        ),
        frames(
            "zeron-"@ + mode.name(),
            ".log"@,
            |pid: u32| overflow_text(mode, pid),
            |pid: u32| "."@ + decimal(pid as nat),
        ),
{
    let by_mode = |mode: LogMode| overflow_text(mode, pid);
    assert forall|mode: LogMode| #[trigger] by_mode(mode) == "zeron-"@ + mode.name() + ("."@
        + decimal(pid as nat) + ".log"@) by {
        assert(by_mode(mode) =~= "zeron-"@ + mode.name() + ("."@ + decimal(pid as nat) + ".log"@));
    }
    let by_pid = |pid: u32| overflow_text(mode, pid);
    assert forall|pid: u32| #[trigger] by_pid(pid) == "zeron-"@ + mode.name() + ("."@ + decimal(
        pid as nat,
    )) + ".log"@ by {
        assert(by_pid(pid) =~= "zeron-"@ + mode.name() + ("."@ + decimal(pid as nat)) + ".log"@);
    }
}

/// The year, the month and the day are read back from the text of a date: the day from its last two
/// characters, the month from the two before the dash in front of them, the year from the rest,
/// with its sign.
pub proof fn dates_are_read_back(day: Day)
    requires
        day.exists_in_calendar(),
    ensures
        ({
            let s = day.text();
            let n = s.len();
            &&& n >= 10
            &&& s[n - 3] == '-' && s[n - 6] == '-'
            &&& number(s.skip(n - 2)) == day.day
            &&& number(s.subrange(n - 5, n - 3)) == day.month
            &&& 0 <= day.year <= 9999 ==> n == 10 && number(s.take(n - 6)) == day.year
            &&& day.year < 0 ==> s[0] == '-' && number(s.subrange(1, n - 6)) == -day.year
            &&& day.year < 0 ==> n == 11 || n > 11 && s[1] != '0'
            &&& day.year > 9999 ==> s[0] == '+' && number(s.subrange(1, n - 6)) == day.year
            &&& day.year > 9999 ==> n > 11 && s[1] != '0'
        }),
{
    let s = day.text();
    let n = s.len();
    let year = (if day.year < 0 { -day.year } else { day.year }) as nat;
    two_digits(day.month as nat);
    two_digits(day.day as nat);
    padded_is_read_back(day.month as nat, 2);
    padded_is_read_back(day.day as nat, 2);
    padded_is_read_back(year, 4);
    padding_fills_up_with_zeros(year, 4);
    if 0 <= day.year <= 9999 {
        reveal_with_fuel(decimal, 5);
        assert(decimal(year).len() <= 4);
    }
    assert(s.skip(n - 2) =~= padded(day.day as nat, 2));
    assert(s.subrange(n - 5, n - 3) =~= padded(day.month as nat, 2));
    assert(s.take(n - 6) =~= day.year_text());
    if !(0 <= day.year <= 9999) {
        assert(s.subrange(1, n - 6) =~= padded(year, 4));
        assert(s[1] == padded(year, 4)[0]);
        decimals_have_no_leading_zero(year);
        if year > 9999 {
            reveal_with_fuel(decimal, 6);
            assert(decimal(year).len() > 4);
        }
        if decimal(year).len() > 4 {
            assert(padded(year, 4).skip(0) == decimal(year));
            assert(padded(year, 4).skip(0)[0] == padded(year, 4)[0]);
        }
    }
}

/// The calendar: every month has 28 days; all but February have 30, and a 29th of February is there
/// in the years that four divides, but for those that a hundred divides and four hundred does not;
/// seven months have a 31st. It repeats itself after four hundred years.
pub proof fn the_calendar_is_gregorian(day: Day)
    requires
        -262143 <= day.year <= 262142,
    ensures
        day.exists_in_calendar() ==> 1 <= day.month <= 12 && 1 <= day.day <= 31,
        1 <= day.month <= 12 && 1 <= day.day <= 28 ==> day.exists_in_calendar(),
        day.day == 29 ==> (day.exists_in_calendar() <==> 1 <= day.month <= 12 && (day.month == 2
            ==> day.year % 4 == 0 && (day.year % 400 == 0 || day.year % 100 != 0))),
        day.day == 30 ==> (day.exists_in_calendar() <==> 1 <= day.month <= 12 && day.month != 2),
        day.day == 31 ==> (day.exists_in_calendar() <==> day.month == 1 || day.month == 3 || day.month
            == 5 || day.month == 7 || day.month == 8 || day.month == 10 || day.month == 12),
        day.year + 400 <= 262142 ==> (day.exists_in_calendar() <==> Day {
            year: day.year + 400,
            ..day
        }.exists_in_calendar()),
{
}

/// Dates are those of the years from 262144 BC to 262142 AD.
pub proof fn the_calendar_has_its_ends(day: Day)
    ensures
        day.exists_in_calendar() ==> -262143 <= day.year <= 262142,
{
}

/// Rotation keeps what stands in front of the last dot, whatever it is, and puts the same ending in
/// place of whatever stands behind it; a name without a dot, or with one at its start only, is kept
/// whole.
pub proof fn rotation_keeps_the_stem(stem: Seq<char>, extension: Seq<char>, other: Seq<char>)
    requires
        !extension.contains('.'),
        !other.contains('.'),
    ensures
        stem.len() > 0 && stem != seq!['.'] ==> rotated_text(stem + seq!['.'] + extension) == stem
            + ".log.1"@,
        stem.len() > 0 ==> rotated_text(stem + seq!['.'] + extension) == rotated_text(
            stem + seq!['.'] + other,
        ),
        extension.len() > 0 ==> rotated_text(extension) == extension + ".log.1"@,
        extension.len() > 0 ==> rotated_text(seq!['.'] + extension) == seq!['.'] + extension
            + ".log.1"@,
        rotated_text(seq!['.'] + seq!['.'] + extension) == ".."@,
        rotated_text(Seq::empty()) == Seq::<char>::empty(),
        rotated_text(seq!['.']) == seq!['.'],
{
    reveal_strlit("");
    reveal_strlit(".");
    reveal_strlit("..");
    assert(""@ =~= Seq::empty());
    assert("."@ =~= seq!['.']);
    let name = stem + seq!['.'] + extension;
    let second = stem + seq!['.'] + other;
    the_last_dot_is_found(stem, extension);
    the_last_dot_is_found(stem, other);
    assert(name.take(stem.len() as int) =~= stem);
    assert(second.take(stem.len() as int) =~= stem);
    if stem.len() == 1 {
        assert(name[0] == stem[0] && second[0] == stem[0]);
        if stem[0] == '.' {
            assert(stem =~= seq!['.']);
        }
    }
    if stem.len() > 0 {
        assert(name.len() >= 2 && second.len() >= 2);
    }
    no_dot_is_found(extension);
    if extension.len() > 0 {
        if extension == seq!['.'] {
            assert(extension[0] == '.');
        }
        let hidden = seq!['.'] + extension;
        the_last_dot_is_found(Seq::empty(), extension);
        assert(Seq::<char>::empty() + seq!['.'] + extension =~= hidden);
        assert(hidden.len() >= 2);
    }
    the_last_dot_is_found(seq!['.'], extension);
    assert((seq!['.'] + seq!['.'] + extension)[0] == '.');
    assert((seq!['.'] + seq!['.'] + extension).len() >= 2);
}

proof fn the_last_dot_is_found(stem: Seq<char>, extension: Seq<char>)
    requires
        !extension.contains('.'),
    ensures
        last_dot(stem + seq!['.'] + extension) == stem.len(),
    decreases extension.len(),
{
    let name = stem + seq!['.'] + extension;
    if extension.len() > 0 {
        let less = extension.drop_last();
        assert(name.drop_last() =~= stem + seq!['.'] + less);
        assert(extension[extension.len() - 1] != '.');
        assert forall|i: int| 0 <= i < less.len() implies less[i] != '.' by {
            assert(extension[i] == less[i]);
        }
        the_last_dot_is_found(stem, less);
    } else {
        assert(name.last() == '.');
    }
}

proof fn no_dot_is_found(name: Seq<char>)
    requires
        !name.contains('.'),
    ensures
        last_dot(name) == -1,
    decreases name.len(),
{
    if name.len() > 0 {
        let less = name.drop_last();
        assert(name[name.len() - 1] != '.');
        assert forall|i: int| 0 <= i < less.len() implies less[i] != '.' by {
            assert(name[i] == less[i]);
        }
        no_dot_is_found(less);
    }
}

/// A name is a single component where its parts are, and a separator is none.
pub proof fn components_hold_no_separator(a: Seq<char>, b: Seq<char>, c: char)
    ensures
        is_component(Seq::empty()),
        is_component(seq![c]) <==> c != '/' && c != '\\',
        is_component(a + b) <==> is_component(a) && is_component(b),
{
    assert(seq![c][0] == c);
    if is_component(a + b) {
        assert forall|i: int| 0 <= i < a.len() implies #[trigger] a[i] != '/' && a[i] != '\\' by {
            assert((a + b)[i] == a[i]);
        }
        assert forall|i: int| 0 <= i < b.len() implies #[trigger] b[i] != '/' && b[i] != '\\' by {
            assert((a + b)[a.len() + i] == b[i]);
        }
    }
}

}
