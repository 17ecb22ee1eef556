use vstd::prelude::*;
use chrono::Datelike;
use chrono::Timelike;

verus! {

/// A wall-clock instant of a capture file, as calendar fields (UTC).
#[derive(Clone, Copy, Debug, PartialEq, Eq, Structural)]
pub struct Timestamp {
    pub year: i32,
    pub month: u32,
    pub day: u32,
    pub hour: u32,
    pub minute: u32,
    pub second: u32,
}

pub open spec fn is_leap_year(y: int) -> bool {
    (y % 4 == 0 && y % 100 != 0) || y % 400 == 0
}

pub open spec fn days_in_month(y: int, m: int) -> int {
    if m == 2 {
        if is_leap_year(y) { 29 } else { 28 }
    } else if m == 4 || m == 6 || m == 9 || m == 11 {
        30
    } else {
        31
    }
}

/// The decimal digit for `n` in `0..10`.
pub open spec fn digit_char(n: int) -> char {
    seq!['0', '1', '2', '3', '4', '5', '6', '7', '8', '9'][n]
}

/// `n` written with exactly `width` decimal digits, zero-padded on the left
/// (the digits of `n % 10^width`).
pub open spec fn padded_digits(n: nat, width: nat) -> Seq<char>
    decreases width,
{
    if width == 0 {
        Seq::empty()
    } else {
        padded_digits(n / 10, (width - 1) as nat).push(digit_char((n % 10) as int))
    }
}

impl Timestamp {
    /// A real calendar date and a time of day.
    pub open spec fn wf(&self) -> bool {
        &&& 1 <= self.month <= 12
        &&& 1 <= self.day <= days_in_month(self.year as int, self.month as int)
        &&& self.hour < 24
        &&& self.minute < 60
        &&& self.second < 60
    }

    /// The instant written as `YYYY-MM-DD HH:MM:SS`.
    pub open spec fn label(&self) -> Seq<char> {
        padded_digits(self.year as nat, 4) + seq!['-'] + padded_digits(self.month as nat, 2)
            + seq!['-'] + padded_digits(self.day as nat, 2) + seq![' ']
            + padded_digits(self.hour as nat, 2) + seq![':'] + padded_digits(self.minute as nat, 2)
            + seq![':'] + padded_digits(self.second as nat, 2)
    }
}

/// The instant that chrono reads from a capture file's date column
/// (`DD-MON-YYYY`) and time column (`HH:MM:SS`), if it reads one.
pub uninterp spec fn capture_time(date: Seq<char>, time: Seq<char>) -> Option<Timestamp>;

/// Relies on `chrono::DateTime::parse_from_str` with the format
/// `%d-%b-%YT%H:%M:%S %z`: a result is a valid date and time of day.
#[verifier::external_body]
pub(crate) fn parse_capture_time(date: &str, time: &str) -> (r: Option<Timestamp>)
    ensures
        r == capture_time(date@, time@),
        r matches Some(t) ==> t.wf(),
{
    let s = format!("{}T{} +0000", date, time);
    match chrono::DateTime::parse_from_str(&s, "%d-%b-%YT%H:%M:%S %z") {
        Ok(dt) => Some(Timestamp {
            year: dt.year(),
            month: dt.month(),
            day: dt.day(),
            hour: dt.hour(),
            minute: dt.minute(),
            second: dt.second(),
        }),
        Err(_) => None,
    }
}

/// Relies on chrono's `NaiveDateTime::format` with `%Y-%m-%d %H:%M:%S`, which
/// writes a year in `0..=9999` with four digits and the other fields with two.
#[verifier::external_body]
pub(crate) fn format_label(t: &Timestamp) -> (r: String)
    requires
        t.wf(),
    ensures
        0 <= t.year <= 9999 ==> r@ == t.label(),
{
    match chrono::NaiveDate::from_ymd_opt(t.year, t.month, t.day) {
        Some(d) => match d.and_hms_opt(t.hour, t.minute, t.second) {
            Some(dt) => dt.format("%Y-%m-%d %H:%M:%S").to_string(),
            None => String::new(),
        },
        None => String::new(),
    }
}

} // verus!
