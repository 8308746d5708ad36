//! The time stamps of a removal: the deletion date of its record, and the
//! suffix that keeps a removed file from overwriting an earlier one.
use vstd::prelude::*;

verus! {

/// A local date and time, as a clock reading gives it. A nanosecond count
/// of a second or more marks a leap second after second 59.
pub struct LocalTime {
    pub year: i32,
    pub month: u32,
    pub day: u32,
    pub hour: u32,
    pub minute: u32,
    pub second: u32,
    pub nanosecond: u32,
}

/// Leap years of the proleptic Gregorian calendar.
pub open spec fn leap_year(y: int) -> bool {
    y % 4 == 0 && (y % 100 != 0 || y % 400 == 0)
}

/// The number of days of a month.
pub open spec fn days_in_month(y: int, m: int) -> int {
    if m == 2 {
        if leap_year(y) { 29 } else { 28 }
    } else if m == 4 || m == 6 || m == 9 || m == 11 {
        30
    } else {
        31
    }
}

/// A time that exists, within the years that chrono's dates cover.
pub open spec fn valid_time(t: LocalTime) -> bool {
    &&& -262143 <= t.year <= 262142
    &&& 1 <= t.month <= 12
    &&& 1 <= t.day <= days_in_month(t.year as int, t.month as int)
    &&& t.hour < 24
    &&& t.minute < 60
    &&& t.second < 60
    &&& t.nanosecond < 2_000_000_000
    &&& t.nanosecond >= 1_000_000_000 ==> t.second == 59
}

/// The decimal digit for `d < 10`.
pub open spec fn digit(d: int) -> char {
    (d + 48) as char
}

/// `n < 100` in two decimal digits.
pub open spec fn two(n: int) -> Seq<char> {
    seq![digit(n / 10), digit(n % 10)]
}

/// `n < 10000` in four decimal digits.
pub open spec fn four(n: int) -> Seq<char> {
    seq![digit(n / 1000), digit(n / 100 % 10), digit(n / 10 % 10), digit(n % 10)]
}

/// The decimal numeral of `n`, without leading zeros.
pub open spec fn numeral(n: nat) -> Seq<char>
    decreases n,
{
    if n < 10 {
        seq![digit(n as int)]
    } else {
        numeral(n / 10).push(digit((n % 10) as int))
    }
}

/// A year as `%Y` writes it: four digits from 0 to 9999, otherwise a
/// sign and at least four digits.
pub open spec fn year_text(y: int) -> Seq<char> {
    if 0 <= y <= 9999 {
        four(y)
    } else if y >= 10000 {
        seq!['+'] + numeral(y as nat)
    } else if y > -10000 {
        seq!['-'] + four(-y)
    } else {
        seq!['-'] + numeral((-y) as nat)
    }
}

/// The second as `%S` writes it: 60 during a leap second.
pub open spec fn shown_second(t: LocalTime) -> int {
    t.second + if t.nanosecond >= 1_000_000_000 { 1int } else { 0int }
}

/// The deletion date of a record, `%Y-%m-%dT%H:%M:%S`.
pub open spec fn date_text(t: LocalTime) -> Seq<char> {
    year_text(t.year as int) + seq!['-'] + two(t.month as int) + seq!['-'] + two(t.day as int)
        + seq!['T'] + two(t.hour as int) + seq![':'] + two(t.minute as int) + seq![':'] + two(
        shown_second(t),
    )
}

/// The suffix against overwriting, `_%H%M%S-%y%m%d`.
pub open spec fn suffix_text(t: LocalTime) -> Seq<char> {
    seq!['_'] + two(t.hour as int) + two(t.minute as int) + two(shown_second(t)) + seq!['-']
        + two(t.year as int % 100) + two(t.month as int) + two(t.day as int)
}

/// chrono's `NaiveDateTime::format` on the time `t` (made with
/// `NaiveDate::from_ymd_opt` and `and_hms_nano_opt`, which succeed on a
/// valid time), for the two formats that the tool uses. The contract is
/// chrono's documented table: `%Y` the year zero-padded to four digits,
/// with a sign before 1 BCE and after 9999 CE; `%y` the year modulo 100,
/// `%m`, `%d`, `%H`, `%M` two digits each; `%S` two digits, 60 in a leap
/// second.
#[verifier::external_body]
fn format_time(t: &LocalTime, fmt: &str) -> (s: String)
    requires
        valid_time(*t),
        fmt@ == "%Y-%m-%dT%H:%M:%S"@ || fmt@ == "_%H%M%S-%y%m%d"@,
    ensures
        fmt@ == "%Y-%m-%dT%H:%M:%S"@ ==> s@ == date_text(*t),
        fmt@ == "_%H%M%S-%y%m%d"@ ==> s@ == suffix_text(*t),
{
    let date = chrono::NaiveDate::from_ymd_opt(t.year, t.month, t.day).unwrap();
    let time = date.and_hms_nano_opt(t.hour, t.minute, t.second, t.nanosecond).unwrap();
    time.format(fmt).to_string()
}

/// The deletion date written into a record for a removal at `t`.
pub fn deletion_date(t: &LocalTime) -> (s: String)
    requires
        valid_time(*t),
    ensures
        s@ == date_text(*t),
{
    format_time(t, "%Y-%m-%dT%H:%M:%S")
}

/// The suffix added to a removed file's name when its place in the waste
/// folder is taken.
pub fn noclobber_suffix(t: &LocalTime) -> (s: String)
    requires
        valid_time(*t),
    ensures
        s@ == suffix_text(*t),
{
    format_time(t, "_%H%M%S-%y%m%d")
}

} // verus!
