use vstd::prelude::*;
use crate::numbers::push_decimal;
use crate::text::{chars_of, decimal_digits, push_char, push_str};
use chrono::Datelike;

verus! {

/// Leap years of the proleptic Gregorian calendar.
pub open spec fn is_leap_year(y: int) -> bool {
    (y % 4 == 0 && y % 100 != 0) || y % 400 == 0
}

pub open spec fn days_in_month(y: int, m: int) -> int {
    if m == 2 {
        if is_leap_year(y) {
            29
        } else {
            28
        }
    } else if m == 4 || m == 6 || m == 9 || m == 11 {
        30
    } else {
        31
    }
}

/// The earliest year of a calendar date that chrono represents.
pub open spec fn first_year() -> int {
    -262143
}

/// The latest year of a calendar date that chrono represents.
pub open spec fn last_year() -> int {
    262142
}

/// A calendar date that chrono's `NaiveDate` can hold.
pub open spec fn valid_date(y: int, m: int, d: int) -> bool {
    first_year() <= y <= last_year() && 1 <= m <= 12 && 1 <= d <= days_in_month(y, m)
}

/// The previous calendar date; the first representable date has none and stays itself.
pub open spec fn day_before(y: int, m: int, d: int) -> (int, int, int) {
    if d > 1 {
        (y, m, d - 1)
    } else if m > 1 {
        (y, m - 1, days_in_month(y, m - 1))
    } else if y > first_year() {
        (y - 1, 12, 31)
    } else {
        (y, m, d)
    }
}

/// `n` written with at least `width` digits, padded with zeros on the left.
pub open spec fn zero_padded(n: nat, width: nat) -> Seq<char> {
    let digits = decimal_digits(n);
    if digits.len() < width {
        Seq::new((width - digits.len()) as nat, |i: int| '0') + digits
    } else {
        digits
    }
}

/// Appends `n` written with at least `width` digits, padded with zeros on the left.
pub fn push_padded(s: &mut String, n: u64, width: usize)
    ensures
        final(s)@ == old(s)@ + zero_padded(n as nat, width as nat),
{
    let mut digits = String::new();
    push_decimal(&mut digits, n);
    let count = chars_of(digits.as_str()).len();
    if count < width {
        let mut k: usize = count;
        while k < width
            invariant
                count <= k <= width,
                count == decimal_digits(n as nat).len(),
                s@ == old(s)@ + Seq::new((k - count) as nat, |i: int| '0'),
            decreases width - k,
        {
            proof {
                assert(Seq::new((k + 1 - count) as nat, |i: int| '0') == Seq::new(
                    (k - count) as nat,
                    |i: int| '0',
                ).push('0'));
            }
            push_char(s, '0');
            k += 1;
        }
    }
    push_str(s, digits.as_str());
}

/// chrono's `%Y`: four digits, with a sign outside the years 0 to 9999.
pub open spec fn year_text(y: int) -> Seq<char> {
    if 0 <= y <= 9999 {
        zero_padded(y as nat, 4)
    } else if y < 0 {
        seq!['-'] + zero_padded((-y) as nat, 4)
    } else {
        seq!['+'] + zero_padded(y as nat, 4)
    }
}

/// chrono's `%Y-%m-%d`.
pub open spec fn ymd_text(y: int, m: int, d: int) -> Seq<char> {
    year_text(y) + seq!['-'] + zero_padded(m as nat, 2) + seq!['-'] + zero_padded(d as nat, 2)
}

/// chrono's `%m-%d`.
pub open spec fn md_text(m: int, d: int) -> Seq<char> {
    zero_padded(m as nat, 2) + seq!['-'] + zero_padded(d as nat, 2)
}

/// What chrono's `NaiveDate::parse_from_str(s, "%Y-%m-%d")` gives, as year, month, day.
pub uninterp spec fn parsed_ymd(s: Seq<char>) -> Option<(i32, u32, u32)>;

/// chrono's `NaiveDate::pred_opt`, with the date itself when there is no previous date.
#[verifier::external_body]
pub(crate) fn previous_day(y: i32, m: u32, d: u32) -> (r: (i32, u32, u32))
    requires
        valid_date(y as int, m as int, d as int),
    ensures
        (r.0 as int, r.1 as int, r.2 as int) == day_before(y as int, m as int, d as int),
{
    let date = chrono::NaiveDate::from_ymd_opt(y, m, d).unwrap();
    let prev = date.pred_opt().unwrap_or(date);
    (prev.year(), prev.month(), prev.day())
}

/// chrono's `NaiveDate::format("%Y-%m-%d")`.
#[verifier::external_body]
pub(crate) fn format_ymd(y: i32, m: u32, d: u32) -> (r: String)
    requires
        valid_date(y as int, m as int, d as int),
    ensures
        r@ == ymd_text(y as int, m as int, d as int),
{
    let date = chrono::NaiveDate::from_ymd_opt(y, m, d).unwrap();
    date.format("%Y-%m-%d").to_string()
}

/// chrono's `NaiveDate::format("%m-%d")`.
#[verifier::external_body]
pub(crate) fn format_md(y: i32, m: u32, d: u32) -> (r: String)
    requires
        valid_date(y as int, m as int, d as int),
    ensures
        r@ == md_text(m as int, d as int),
{
    let date = chrono::NaiveDate::from_ymd_opt(y, m, d).unwrap();
    date.format("%m-%d").to_string()
}

/// chrono's `NaiveDate::parse_from_str(s, "%Y-%m-%d")`; its result is named `parsed_ymd`,
/// and a parsed date is a date that chrono represents.
#[verifier::external_body]
pub(crate) fn parse_ymd(s: &str) -> (r: Option<(i32, u32, u32)>)
    ensures
        r == parsed_ymd(s@),
        r matches Some(t) ==> valid_date(t.0 as int, t.1 as int, t.2 as int),
{
    match chrono::NaiveDate::parse_from_str(s, "%Y-%m-%d") {
        Ok(date) => Some((date.year(), date.month(), date.day())),
        Err(_) => None,
    }
}

/// The date whose usage is "today" at the given local time: before `cutoff_hour`
/// the usage still belongs to the previous day.
pub open spec fn effective_day(y: int, m: int, d: int, hour: int, cutoff_hour: int) -> (int, int, int) {
    if hour < cutoff_hour {
        day_before(y, m, d)
    } else {
        (y, m, d)
    }
}

proof fn lemma_day_before_valid(y: int, m: int, d: int)
    requires
        valid_date(y, m, d),
    ensures
        valid_date(day_before(y, m, d).0, day_before(y, m, d).1, day_before(y, m, d).2),
{
}

/// The `YYYY-MM-DD` text of the effective day at the given local time.
pub fn effective_day_text(year: i32, month: u32, day: u32, hour: u32, cutoff_hour: u32) -> (r: String)
    requires
        valid_date(year as int, month as int, day as int),
    ensures
        ({
            let e = effective_day(year as int, month as int, day as int, hour as int, cutoff_hour as int);
            r@ == ymd_text(e.0, e.1, e.2)
        }),
{
    if hour < cutoff_hour {
        let (y, m, d) = previous_day(year, month, day);
        proof {
            lemma_day_before_valid(year as int, month as int, day as int);
        }
        format_ymd(y, m, d)
    } else {
        format_ymd(year, month, day)
    }
}

} // verus!

verus! {

/// The parts of a local date and time that the dashboards read.
pub struct LocalDateTime {
    pub year: i32,
    pub month: u32,
    pub day: u32,
    pub hour: u32,
}

impl LocalDateTime {
    /// A local time that chrono can hold.
    pub open spec fn wf(&self) -> bool {
        valid_date(self.year as int, self.month as int, self.day as int) && self.hour < 24
    }
}

} // verus!
