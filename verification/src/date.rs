//! Calendar dates: reading them, writing them, and the day that it is.

use chrono::{Datelike, Local, NaiveDate};
use vstd::prelude::*;

use crate::model;
use crate::text;

verus! {

/// A date of the Gregorian calendar, which is taken to hold at all times. Year 0 is the year
/// before year 1.
pub struct CivilDate {
    pub year: int,
    pub month: int,
    pub day: int,
}

/// Whether a year has a 29th of February.
pub open spec fn is_leap(year: int) -> bool {
    year % 4 == 0 && (year % 100 != 0 || year % 400 == 0)
}

/// How many days a month has.
pub open spec fn days_in_month(year: int, month: int) -> int {
    if month == 2 {
        if is_leap(year) {
            29
        } else {
            28
        }
    } else if month == 4 || month == 6 || month == 9 || month == 11 {
        30
    } else {
        31
    }
}

/// How many days of an ordinary year lie before a month.
pub open spec fn days_before_month(month: int) -> int {
    seq![0int, 31, 59, 90, 120, 151, 181, 212, 243, 273, 304, 334][month - 1]
}

/// The three letters for a day of the week, from Sunday on.
pub open spec fn weekday_name(day: int) -> Seq<char> {
    seq!["Sun"@, "Mon"@, "Tue"@, "Wed"@, "Thu"@, "Fri"@, "Sat"@][day]
}

/// The three letters for a month.
pub open spec fn month_name(month: int) -> Seq<char> {
    seq![
        "Jan"@,
        "Feb"@,
        "Mar"@,
        "Apr"@,
        "May"@,
        "Jun"@,
        "Jul"@,
        "Aug"@,
        "Sep"@,
        "Oct"@,
        "Nov"@,
        "Dec"@,
    ][month - 1]
}

/// A number in decimal, filled up with zeros to a width.
pub open spec fn padded(n: nat, width: nat) -> Seq<char>
    decreases width,
{
    if width <= 1 {
        text::decimal(n)
    } else {
        padded(n / 10, (width - 1) as nat).push(text::digit_char(n % 10))
    }
}

/// A year in at least four digits; outside 0 to 9999 with its sign.
pub open spec fn year_text(year: int) -> Seq<char> {
    if 0 <= year <= 9999 {
        padded(year as nat, 4)
    } else if year < 0 {
        "-"@ + padded((-year) as nat, 4)
    } else {
        "+"@ + padded(year as nat, 4)
    }
}

impl CivilDate {
    /// Whether there is such a date, within the years that are dealt with.
    pub open spec fn valid(self) -> bool {
        &&& -262143 <= self.year <= 262142
        &&& 1 <= self.month <= 12
        &&& 1 <= self.day <= days_in_month(self.year, self.month)
    }

    /// The number of the day, counted from the first day of year 1, a Monday, which has number 1.
    pub open spec fn day_number(self) -> int {
        let y = self.year - 1;
        365 * y + y / 4 - y / 100 + y / 400 + days_before_month(self.month) + (if self.month > 2
            && is_leap(self.year) {
            1int
        } else {
            0
        }) + self.day
    }

    /// Whether this date is earlier than another one.
    pub open spec fn earlier(self, other: CivilDate) -> bool {
        ||| self.year < other.year
        ||| self.year == other.year && self.month < other.month
        ||| self.year == other.year && self.month == other.month && self.day < other.day
    }

    /// The date as `2026/08/22`.
    pub open spec fn iso(self) -> Seq<char> {
        year_text(self.year) + "/"@ + padded(self.month as nat, 2) + "/"@ + padded(
            self.day as nat,
            2,
        )
    }

    /// The date as `Sat 22 Aug 2026`.
    pub open spec fn pretty(self) -> Seq<char> {
        weekday_name(self.day_number() % 7) + " "@ + padded(self.day as nat, 2) + " "@
            + month_name(self.month) + " "@ + year_text(self.year)
    }
}

/// A text without the white space at its front.
pub open spec fn without_front_white(s: Seq<char>) -> Seq<char>
    decreases s.len(),
{
    if s.len() > 0 && text::is_white(s[0]) {
        without_front_white(s.drop_first())
    } else {
        s
    }
}

/// The number in a month or day field: white space, then one or two digits.
pub open spec fn read_field(s: Seq<char>) -> Option<int> {
    let t = without_front_white(s);
    if 1 <= t.len() <= 2 && text::all_digits(t) {
        Some(text::digits_value(t) as int)
    } else {
        None
    }
}

/// The number in a year field: white space, then one to four digits, or a sign and any number of
/// digits.
pub open spec fn read_year(s: Seq<char>) -> Option<int> {
    let t = without_front_white(s);
    if t.len() > 0 && (t[0] == '-' || t[0] == '+') {
        let digits = t.drop_first();
        if digits.len() > 0 && text::all_digits(digits) {
            let n = text::digits_value(digits) as int;
            Some(
                if t[0] == '-' {
                    -n
                } else {
                    n
                },
            )
        } else {
            None
        }
    } else if 1 <= t.len() <= 4 && text::all_digits(t) {
        Some(text::digits_value(t) as int)
    } else {
        None
    }
}

/// The date that a text stands for: a year, a month and a day with a slash between them.
pub open spec fn read_ymd(s: Seq<char>) -> Option<CivilDate> {
    match model::first_place(s, |c: char| c == '/') {
        None => None,
        Some(i) => {
            let rest = s.skip(i + 1);
            match model::first_place(rest, |c: char| c == '/') {
                None => None,
                Some(j) => match (
                    read_year(s.take(i)),
                    read_field(rest.take(j)),
                    read_field(rest.skip(j + 1)),
                ) {
                    (Some(year), Some(month), Some(day)) => {
                        let date = CivilDate { year, month, day };
                        if date.valid() {
                            Some(date)
                        } else {
                            None
                        }
                    },
                    _ => None,
                },
            }
        },
    }
}

/// The error of `chrono` for a text that does not hold a date.
#[verifier::external_type_specification]
#[verifier::external_body]
pub struct ExParseError(chrono::ParseError);

/// Calls `chrono::NaiveDate::parse_from_str` and takes the date apart with `year`, `month` and
/// `day` of `chrono::Datelike`. Claimed of it, for the format `%Y/%m/%d`: it reads exactly the
/// texts that [`read_ymd`] reads, as the dates that [`read_ymd`] gives. It skips white space in
/// front of each number, takes a year of one to four digits or with a sign, a month and a day of
/// one or two digits, and refuses dates that do not exist.
#[verifier::external_body]
fn parse_from_str(s: &str, format: &str) -> (r: Result<(i32, u32, u32), chrono::ParseError>)
    requires
        format@ == "%Y/%m/%d"@,
    ensures
        match r {
            Ok((year, month, day)) => read_ymd(s@) == Some(
                (CivilDate { year: year as int, month: month as int, day: day as int }),
            ),
            Err(_) => read_ymd(s@) is None,
        },
{
    match NaiveDate::parse_from_str(s, format) {
        Ok(date) => Ok((date.year(), date.month(), date.day())),
        Err(e) => Err(e),
    }
}

/// Calls `chrono::NaiveDate::format`, and `to_string` on what it returns, for the date that
/// `chrono::NaiveDate::from_ymd_opt` makes of the three numbers. Claimed of it, for two formats:
/// `%Y/%m/%d` gives [`CivilDate::iso`], and `%a %d %b %Y` gives [`CivilDate::pretty`].
#[verifier::external_body]
fn format_ymd(year: i32, month: u32, day: u32, format: &str) -> (r: String)
    requires
        (CivilDate { year: year as int, month: month as int, day: day as int }).valid(),
        format@ == "%Y/%m/%d"@ || format@ == "%a %d %b %Y"@,
    ensures
        format@ == "%Y/%m/%d"@ ==> r@ == (CivilDate {
            year: year as int,
            month: month as int,
            day: day as int,
        }).iso(),
        format@ == "%a %d %b %Y"@ ==> r@ == (CivilDate {
            year: year as int,
            month: month as int,
            day: day as int,
        }).pretty(),
{
    NaiveDate::from_ymd_opt(year, month, day).unwrap().format(format).to_string()
}

/// Calls `chrono::Local::now` and `date_naive` on what it returns, and takes the date apart with
/// `year`, `month` and `day` of `chrono::Datelike`. Claimed of it: that this is a date. Which one
/// depends on the clock and on the time zone of the machine. It panics where these make no sense:
/// if the clock stands before the year 1970 or beyond the years that `chrono` deals with, or if the
/// zone is off by 24 hours or more, or has no offset for that time.
#[verifier::external_body]
fn local_date() -> (r: (i32, u32, u32))
    ensures
        (CivilDate { year: r.0 as int, month: r.1 as int, day: r.2 as int }).valid(),
{
    let date = Local::now().date_naive();
    (date.year(), date.month(), date.day())
}

/// A calendar date.
#[derive(Debug, Clone, Copy, PartialEq, Eq)]
pub struct Date {
    year: i32,
    month: u32,
    day: u32,
}

impl View for Date {
    type V = CivilDate;

    closed spec fn view(&self) -> CivilDate {
        CivilDate { year: self.year as int, month: self.month as int, day: self.day as int }
    }
}

impl Date {
    #[verifier::type_invariant]
    spec fn is_date(self) -> bool {
        self@.valid()
    }
}

/// The day that it is, where the program runs.
pub fn today() -> (r: Date)
    ensures
        r@.valid(),
{
    let (year, month, day) = local_date();
    Date { year, month, day }
}

/// A day that is given, or the day that it is, which is looked up only where it matters.
#[derive(Debug, Clone, Copy)]
pub enum Day {
    Given(Date),
    Current,
}

impl Day {
    /// Whether this can turn out to be a date.
    pub open spec fn may_be(self, date: CivilDate) -> bool {
        match self {
            Day::Given(d) => date == d@,
            Day::Current => date.valid(),
        }
    }

    /// It can always turn out to be some date.
    pub proof fn is_some_date(self)
        ensures
            exists|date: CivilDate| self.may_be(date),
    {
        let date = match self {
            Day::Given(d) => d@,
            Day::Current => CivilDate { year: 1970, month: 1, day: 1 },
        };
        assert(self.may_be(date));
    }

    /// The date that it turns out to be.
    pub fn read(self) -> (r: Date)
        ensures
            self.may_be(r@),
    {
        match self {
            Day::Given(date) => date,
            Day::Current => today(),
        }
    }
}

/// The date that a text given by a user stands for, as `YYYY/MM/DD`. White space around it does
/// not matter.
pub open spec fn read_date(raw: Seq<char>) -> Option<CivilDate> {
    read_ymd(text::trimmed(raw))
}

/// Reads a date (see [`read_date`]).
pub fn parse_date(raw: &str) -> (r: Option<Date>)
    ensures
        match r {
            Some(date) => read_date(raw@) == Some(date@) && date@.valid(),
            None => read_date(raw@) is None,
        },
{
    match parse_from_str(text::trim(raw), "%Y/%m/%d") {
        Ok((year, month, day)) => Some(Date { year, month, day }),
        Err(_) => None,
    }
}

/// The date in the form under which sessions are kept, `YYYY/MM/DD`.
pub fn iso(date: Date) -> (r: String)
    ensures
        r@ == date@.iso(),
{
    proof {
        use_type_invariant(date);
    }
    format_ymd(date.year, date.month, date.day, "%Y/%m/%d")
}

/// The date for people to read, such as `Sat 22 Aug 2026`.
pub fn pretty(date: Date) -> (r: String)
    ensures
        r@ == date@.pretty(),
{
    proof {
        use_type_invariant(date);
    }
    format_ymd(date.year, date.month, date.day, "%a %d %b %Y")
}

/// A kept date for people to read; a text that is no date stays as it is.
pub open spec fn pretty_kept(date: Seq<char>) -> Seq<char> {
    match read_date(date) {
        Some(d) => d.pretty(),
        None => date,
    }
}

/// Writes a kept date for people to read (see [`pretty_kept`]).
pub fn pretty_iso(date: &str) -> (r: String)
    ensures
        r@ == pretty_kept(date@),
{
    match parse_date(date) {
        Some(d) => pretty(d),
        None => date.to_owned(),
    }
}

} // verus!
