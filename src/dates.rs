use chrono::{Datelike, NaiveDate, NaiveDateTime, Timelike};
use std::fmt::Write;
use vstd::prelude::*;

use crate::calendar::{day_number_of, lemma_day_number_injective, valid_ymd, Date, MIN_YEAR};
use crate::errors::ServerError;

verus! {

/// Years that stored dates are moved back by before they get their day
/// number, and moved forward by after.
pub const YEAR_SHIFT: i32 = 1999;

/// The pattern dates are read from forms with.
pub const FORM_DATE: &'static str = "%Y-%m-%d";

/// The pattern dates are shown with.
pub const DISPLAY_DATE: &'static str = "%d-%m-%Y";

/// The pattern timestamps are read from forms with.
pub const FORM_TIMESTAMP: &'static str = "%Y-%m-%dT%H:%M";

/// The pattern timestamps are shown with.
pub const DISPLAY_TIMESTAMP: &'static str = "%d-%m-%Y, %H:%M";

/// A date with a time of day, to the nanosecond (a leap second runs the
/// nanoseconds of second 59 past one billion).
#[derive(Clone, Copy, Debug, PartialEq, Eq, Structural)]
pub struct Timestamp {
    pub date: Date,
    pub hour: u32,
    pub minute: u32,
    pub second: u32,
    pub nanosecond: u32,
}

pub open spec fn valid_time(h: int, mi: int, s: int, n: int) -> bool {
    &&& 0 <= h < 24
    &&& 0 <= mi < 60
    &&& 0 <= s < 60
    &&& 0 <= n < 2_000_000_000
    &&& (n >= 1_000_000_000 ==> s == 59)
}

impl Timestamp {
    pub open spec fn valid(&self) -> bool {
        &&& self.date.valid()
        &&& valid_time(self.hour as int, self.minute as int, self.second as int, self.nanosecond as int)
    }

    pub open spec fn fields(&self) -> (int, int, int, int, int, int, int) {
        (
            self.date.year as int,
            self.date.month as int,
            self.date.day as int,
            self.hour as int,
            self.minute as int,
            self.second as int,
            self.nanosecond as int,
        )
    }
}

/// What chrono's `NaiveDate::parse_from_str` reads from a text with a
/// pattern: year, month and day, or nothing.
pub uninterp spec fn parsed_date(s: Seq<char>, fmt: Seq<char>) -> Option<(int, int, int)>;

/// What chrono's `NaiveDate::format` writes for a date with a pattern, or
/// nothing where the pattern cannot be written for a date.
pub uninterp spec fn formatted_date(y: int, m: int, d: int, fmt: Seq<char>) -> Option<Seq<char>>;

/// What chrono's `NaiveDateTime::parse_from_str` reads from a text with a
/// pattern: year, month, day, hour, minute, second and nanosecond, or nothing.
pub uninterp spec fn parsed_timestamp(s: Seq<char>, fmt: Seq<char>) -> Option<
    (int, int, int, int, int, int, int),
>;

/// What chrono's `NaiveDateTime::format` writes for a timestamp with a
/// pattern, or nothing where the pattern cannot be written for it.
pub uninterp spec fn formatted_timestamp(
    t: (int, int, int, int, int, int, int),
    fmt: Seq<char>,
) -> Option<Seq<char>>;

/// Relies on chrono's `NaiveDate::from_ymd_opt`: a date exists where the
/// month is 1 to 12, the day within the month's length (leap years of the
/// proleptic Gregorian calendar) and the year within chrono's range.
#[verifier::external_body]
fn calendar_date(year: i32, month: u32, day: u32) -> (r: Option<Date>)
    ensures
        r is Some <==> valid_ymd(year as int, month as int, day as int),
        r matches Some(d) ==> d == (Date { year, month, day }),
{
    match NaiveDate::from_ymd_opt(year, month, day) {
        Some(d) => Some(Date { year: d.year(), month: d.month(), day: d.day() }),
        None => None,
    }
}

/// Relies on chrono's `Datelike::num_days_from_ce`: the day's number in the
/// proleptic Gregorian calendar, the first of January of year 1 being day 1.
#[verifier::external_body]
fn day_number(d: Date) -> (n: i32)
    requires
        d.valid(),
    ensures
        n as int == d.number(),
{
    NaiveDate::from_ymd_opt(d.year, d.month, d.day).unwrap().num_days_from_ce()
}

/// Relies on chrono's `NaiveDate::from_num_days_from_ce_opt`: the date whose
/// number is `n`, where chrono's range has one.
#[verifier::external_body]
fn date_of_day_number(n: i32) -> (r: Option<Date>)
    ensures
        r matches Some(d) ==> d.valid() && d.number() == n as int,
        forall|y: int, m: int, d: int|
            valid_ymd(y, m, d) && #[trigger] day_number_of(y, m, d) == n as int ==> r is Some,
{
    match NaiveDate::from_num_days_from_ce_opt(n) {
        Some(d) => Some(Date { year: d.year(), month: d.month(), day: d.day() }),
        None => None,
    }
}

/// Relies on chrono's `NaiveDate::parse_from_str`; what it reads is a date
/// that exists.
#[verifier::external_body]
fn parse_date(s: &str, fmt: &str) -> (r: Option<Date>)
    ensures
        r is None <==> parsed_date(s@, fmt@) is None,
        r matches Some(d) ==> d.valid() && parsed_date(s@, fmt@) == Some(
            (d.year as int, d.month as int, d.day as int),
        ),
{
    match NaiveDate::parse_from_str(s, fmt) {
        Ok(d) => Some(Date { year: d.year(), month: d.month(), day: d.day() }),
        Err(_) => None,
    }
}

/// Relies on chrono's `NaiveDate::format`, written out in full; `None` where
/// the pattern holds an item that cannot be written.
#[verifier::external_body]
fn format_date(d: Date, fmt: &str) -> (r: Option<String>)
    requires
        d.valid(),
    ensures
        r is None <==> formatted_date(d.year as int, d.month as int, d.day as int, fmt@) is None,
        r matches Some(t) ==> formatted_date(d.year as int, d.month as int, d.day as int, fmt@)
            == Some(t@),
{
    let date = NaiveDate::from_ymd_opt(d.year, d.month, d.day).unwrap();
    let mut out = String::new();
    match write!(out, "{}", date.format(fmt)) {
        Ok(()) => Some(out),
        Err(_) => None,
    }
}

/// Relies on chrono's `NaiveDateTime::parse_from_str`; what it reads is a
/// date that exists with a valid time of day.
#[verifier::external_body]
fn parse_timestamp(s: &str, fmt: &str) -> (r: Option<Timestamp>)
    ensures
        r is None <==> parsed_timestamp(s@, fmt@) is None,
        r matches Some(t) ==> t.valid() && parsed_timestamp(s@, fmt@) == Some(t.fields()),
{
    match NaiveDateTime::parse_from_str(s, fmt) {
        Ok(t) => Some(
            Timestamp {
                date: Date { year: t.year(), month: t.month(), day: t.day() },
                hour: t.hour(),
                minute: t.minute(),
                second: t.second(),
                nanosecond: t.nanosecond(),
            },
        ),
        Err(_) => None,
    }
}

/// Relies on chrono's `NaiveDateTime::format`, written out in full; `None`
/// where the pattern holds an item that cannot be written.
#[verifier::external_body]
fn format_timestamp(t: Timestamp, fmt: &str) -> (r: Option<String>)
    requires
        t.valid(),
    ensures
        r is None <==> formatted_timestamp(t.fields(), fmt@) is None,
        r matches Some(s) ==> formatted_timestamp(t.fields(), fmt@) == Some(s@),
{
    let d = NaiveDate::from_ymd_opt(t.date.year, t.date.month, t.date.day).unwrap();
    let moment = d.and_hms_nano_opt(t.hour, t.minute, t.second, t.nanosecond).unwrap();
    let mut out = String::new();
    match write!(out, "{}", moment.format(fmt)) {
        Ok(()) => Some(out),
        Err(_) => None,
    }
}

/// Whether a date, moved back by the shift, still exists.
pub open spec fn storable(d: Date) -> bool {
    valid_ymd(d.year - YEAR_SHIFT, d.month as int, d.day as int)
}

/// The stored form of a date: the day number of the date moved back by the
/// shift.
pub open spec fn stored_number(d: Date) -> int {
    day_number_of(d.year - YEAR_SHIFT, d.month as int, d.day as int)
}

/// Whether `d` is the date that the stored value `n` stands for.
pub open spec fn decodes_to(n: int, d: Date) -> bool {
    d.valid() && storable(d) && stored_number(d) == n
}

/// The stored form of `d`; fails where the shifted date does not exist
/// (the 29th of February, whose shifted year is never a leap year).
pub fn encode_date(d: Date) -> (r: Result<i32, ServerError>)
    ensures
        r is Ok <==> storable(d),
        r matches Ok(n) ==> n as int == stored_number(d),
        r matches Err(e) ==> e is InvalidDate,
{
    if d.year < MIN_YEAR + YEAR_SHIFT {
        return Err(ServerError::InvalidDate);
    }
    match calendar_date(d.year - YEAR_SHIFT, d.month, d.day) {
        Some(shifted) => Ok(day_number(shifted)),
        None => Err(ServerError::InvalidDate),
    }
}

/// The date that the stored value `n` stands for; fails where there is none.
pub fn decode_date(n: i32) -> (r: Result<Date, ServerError>)
    ensures
        r matches Ok(d) ==> decodes_to(n as int, d),
        forall|d: Date| #[trigger] decodes_to(n as int, d) ==> r == Ok::<Date, ServerError>(d),
        r matches Err(e) ==> e is InvalidDate,
{
    match date_of_day_number(n) {
        Some(shifted) => {
            proof {
                assert forall|d: Date| #[trigger] decodes_to(n as int, d) implies d == (Date {
                    year: (shifted.year + YEAR_SHIFT) as i32,
                    month: shifted.month,
                    day: shifted.day,
                }) by {
                    lemma_day_number_injective(
                        shifted.year as int,
                        shifted.month as int,
                        shifted.day as int,
                        d.year - YEAR_SHIFT,
                        d.month as int,
                        d.day as int,
                    );
                }
            }
            match calendar_date(shifted.year + YEAR_SHIFT, shifted.month, shifted.day) {
                Some(d) => Ok(d),
                None => Err(ServerError::InvalidDate),
            }
        },
        None => {
            proof {
                assert forall|d: Date| #[trigger] decodes_to(n as int, d) implies false by {
                    assert(day_number_of(d.year - YEAR_SHIFT, d.month as int, d.day as int)
                        == n as int);
                }
            }
            Err(ServerError::InvalidDate)
        },
    }
}

/// Two dates that decode from the same stored value are the same date.
pub proof fn lemma_decode_unique(n: int, a: Date, b: Date)
    requires
        decodes_to(n, a),
        decodes_to(n, b),
    ensures
        a == b,
{
    lemma_day_number_injective(
        a.year - YEAR_SHIFT, a.month as int, a.day as int,
        b.year - YEAR_SHIFT, b.month as int, b.day as int,
    );
}

/// Storing a date and reading it back gives the same date: the stored value
/// of every date that has one decodes to that date and to no other.
pub proof fn law_date_round_trip(d: Date)
    requires
        d.valid(),
        storable(d),
    ensures
        decodes_to(stored_number(d), d),
        forall|e: Date| #[trigger] decodes_to(stored_number(d), e) ==> e == d,
{
    assert forall|e: Date| #[trigger] decodes_to(stored_number(d), e) implies e == d by {
        lemma_decode_unique(stored_number(d), d, e);
    }
}

/// What reading `s` with pattern `from` and writing the date with `to`
/// gives.
pub open spec fn reformatted_date(s: Seq<char>, from: Seq<char>, to: Seq<char>) -> Option<Seq<char>> {
    match parsed_date(s, from) {
        Some((y, m, d)) => formatted_date(y, m, d, to),
        None => None,
    }
}

/// What reading `s` with pattern `from` and writing the timestamp with `to`
/// gives.
pub open spec fn reformatted_timestamp(s: Seq<char>, from: Seq<char>, to: Seq<char>) -> Option<
    Seq<char>,
> {
    match parsed_timestamp(s, from) {
        Some(t) => formatted_timestamp(t, to),
        None => None,
    }
}

/// The text a date is shown with.
pub open spec fn date_text(d: Date) -> Option<Seq<char>> {
    formatted_date(d.year as int, d.month as int, d.day as int, DISPLAY_DATE@)
}

/// The text a timestamp is shown with.
pub open spec fn timestamp_text(t: Timestamp) -> Option<Seq<char>> {
    formatted_timestamp(t.fields(), DISPLAY_TIMESTAMP@)
}

/// The date a stored value stands for, where there is one.
pub open spec fn stored_date(n: int) -> Option<Date> {
    if exists|d: Date| #[trigger] decodes_to(n, d) {
        Some(choose|d: Date| #[trigger] decodes_to(n, d))
    } else {
        None
    }
}

/// The text a stored date is shown with.
pub open spec fn stored_date_text(n: int) -> Option<Seq<char>> {
    match stored_date(n) {
        Some(d) => date_text(d),
        None => None,
    }
}

/// The stored value of a date given in a form.
pub open spec fn form_date_stored(s: Seq<char>) -> Option<int> {
    match parsed_date(s, FORM_DATE@) {
        Some((y, m, d)) => if valid_ymd(y - YEAR_SHIFT, m, d) {
            Some(day_number_of(y - YEAR_SHIFT, m, d))
        } else {
            None
        },
        None => None,
    }
}

/// A date written with pattern `fmt`; fails with `InvalidDate` where the
/// pattern cannot be written.
pub fn date_to_text(d: Date, fmt: &str) -> (r: Result<String, ServerError>)
    requires
        d.valid(),
    ensures
        match formatted_date(d.year as int, d.month as int, d.day as int, fmt@) {
            Some(t) => r matches Ok(s) && s@ == t,
            None => r matches Err(e) && e is InvalidDate,
        },
{
    match format_date(d, fmt) {
        Some(s) => Ok(s),
        None => Err(ServerError::InvalidDate),
    }
}

/// A date read from `s` with pattern `fmt`; fails with `InvalidDate` where
/// it does not parse.
pub fn date_from_text(s: &str, fmt: &str) -> (r: Result<Date, ServerError>)
    ensures
        match parsed_date(s@, fmt@) {
            Some((y, m, d)) => r matches Ok(x) && x.valid() && x.year as int == y && x.month as int
                == m && x.day as int == d,
            None => r matches Err(e) && e is InvalidDate,
        },
{
    match parse_date(s, fmt) {
        Some(d) => Ok(d),
        None => Err(ServerError::InvalidDate),
    }
}

/// A timestamp written with pattern `fmt`; fails with `InvalidDate` where
/// the pattern cannot be written.
pub fn timestamp_to_text(t: Timestamp, fmt: &str) -> (r: Result<String, ServerError>)
    requires
        t.valid(),
    ensures
        match formatted_timestamp(t.fields(), fmt@) {
            Some(x) => r matches Ok(s) && s@ == x,
            None => r matches Err(e) && e is InvalidDate,
        },
{
    match format_timestamp(t, fmt) {
        Some(s) => Ok(s),
        None => Err(ServerError::InvalidDate),
    }
}

/// A timestamp read from `s` with pattern `fmt`; fails with `InvalidDate`
/// where it does not parse.
pub fn timestamp_from_text(s: &str, fmt: &str) -> (r: Result<Timestamp, ServerError>)
    ensures
        match parsed_timestamp(s@, fmt@) {
            Some(f) => r matches Ok(t) && t.valid() && t.fields() == f,
            None => r matches Err(e) && e is InvalidDate,
        },
{
    match parse_timestamp(s, fmt) {
        Some(t) => Ok(t),
        None => Err(ServerError::InvalidDate),
    }
}

/// Rewrites the date in `text` from pattern `from` to pattern `to`. Where
/// `text` does not read with `from`, or the date cannot be written with
/// `to`, fails with `InvalidDate` and leaves `text` as it was.
pub fn change_date_text(text: &mut String, from: &str, to: &str) -> (r: Result<(), ServerError>)
    ensures
        match reformatted_date(old(text)@, from@, to@) {
            Some(t) => r is Ok && final(text)@ == t,
            None => r matches Err(e) && e is InvalidDate && *final(text) == *old(text),
        },
{
    let d = match date_from_text(text.as_str(), from) {
        Ok(d) => d,
        Err(e) => return Err(e),
    };
    let t = match date_to_text(d, to) {
        Ok(t) => t,
        Err(e) => return Err(e),
    };
    *text = t;
    Ok(())
}

/// Rewrites the timestamp in `text` from pattern `from` to pattern `to`.
/// Where `text` does not read with `from`, or the timestamp cannot be
/// written with `to`, fails with `InvalidDate` and leaves `text` as it was.
pub fn change_timestamp_text(text: &mut String, from: &str, to: &str) -> (r: Result<(), ServerError>)
    ensures
        match reformatted_timestamp(old(text)@, from@, to@) {
            Some(t) => r is Ok && final(text)@ == t,
            None => r matches Err(e) && e is InvalidDate && *final(text) == *old(text),
        },
{
    let t = match timestamp_from_text(text.as_str(), from) {
        Ok(t) => t,
        Err(e) => return Err(e),
    };
    let s = match timestamp_to_text(t, to) {
        Ok(s) => s,
        Err(e) => return Err(e),
    };
    *text = s;
    Ok(())
}

/// The stored value of a date given in a form as `YYYY-MM-DD`; fails with
/// `InvalidDate` where it does not parse or its shifted date does not exist.
pub fn stored_from_form(s: &str) -> (r: Result<i32, ServerError>)
    ensures
        match form_date_stored(s@) {
            Some(n) => r == Ok::<i32, ServerError>(n as i32),
            None => r matches Err(e) && e is InvalidDate,
        },
{
    let d = match date_from_text(s, FORM_DATE) {
        Ok(d) => d,
        Err(e) => return Err(e),
    };
    encode_date(d)
}

/// The text a stored date is shown with; fails with `InvalidDate` where the
/// stored value stands for no date.
pub fn stored_to_display(n: i32) -> (r: Result<String, ServerError>)
    ensures
        match stored_date_text(n as int) {
            Some(t) => r matches Ok(s) && s@ == t,
            None => r matches Err(e) && e is InvalidDate,
        },
{
    match decode_date(n) {
        Ok(d) => {
            proof {
                let c = choose|c: Date| #[trigger] decodes_to(n as int, c);
                assert(decodes_to(n as int, d));
                lemma_decode_unique(n as int, c, d);
            }
            date_to_text(d, DISPLAY_DATE)
        },
        Err(e) => Err(e),
    }
}

/// The text a date is shown with, where the date exists.
pub open spec fn shown_date(d: Date) -> Option<Seq<char>> {
    if d.valid() {
        date_text(d)
    } else {
        None
    }
}

/// The text a timestamp is shown with, where it is a valid one.
pub open spec fn shown_timestamp(t: Timestamp) -> Option<Seq<char>> {
    if t.valid() {
        timestamp_text(t)
    } else {
        None
    }
}

impl Date {
    /// Whether the date exists.
    pub fn is_valid(&self) -> (r: bool)
        ensures
            r == self.valid(),
    {
        calendar_date(self.year, self.month, self.day).is_some()
    }
}

impl Timestamp {
    /// Whether the date exists and the time of day is a valid one.
    pub fn is_valid(&self) -> (r: bool)
        ensures
            r == self.valid(),
    {
        self.date.is_valid() && self.hour < 24 && self.minute < 60 && self.second < 60
            && self.nanosecond < 2_000_000_000 && (self.nanosecond < 1_000_000_000 || self.second
            == 59)
    }
}

/// The text a date is shown with (`DD-MM-YYYY`); fails with `InvalidDate`
/// where the date does not exist.
pub fn show_date(d: Date) -> (r: Result<String, ServerError>)
    ensures
        match shown_date(d) {
            Some(t) => r matches Ok(s) && s@ == t,
            None => r matches Err(e) && e is InvalidDate,
        },
{
    if !d.is_valid() {
        return Err(ServerError::InvalidDate);
    }
    date_to_text(d, DISPLAY_DATE)
}

/// The text a timestamp is shown with (`DD-MM-YYYY, HH:MM`); fails with
/// `InvalidDate` where it is not a valid one.
pub fn show_timestamp(t: Timestamp) -> (r: Result<String, ServerError>)
    ensures
        match shown_timestamp(t) {
            Some(x) => r matches Ok(s) && s@ == x,
            None => r matches Err(e) && e is InvalidDate,
        },
{
    if !t.is_valid() {
        return Err(ServerError::InvalidDate);
    }
    timestamp_to_text(t, DISPLAY_TIMESTAMP)
}

} // verus!
