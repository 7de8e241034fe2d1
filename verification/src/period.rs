//! Accounting periods: calendar months, or runs of a fixed number of days
//! counted from a start date.
use vstd::prelude::*;
use vstd::string::StringExecFns;
use crate::date::{Date, MIN_YEAR, MAX_YEAR, days_in_month, valid_ymd, lemma_days_monotonic, lemma_days_before_next_month, lemma_year_length};
use crate::text::{text, chars_of, string_of, sub_chars, find_char, first_index_of, parse_int, parse_int_spec, padded_int, format_padded, result_is, debug_text, debug_string, single_split, single_split_at, text_result_is, decimal_digits, format_nat};
use crate::date::{chrono_parsed_date, parse_date, spec_date_text, spec_year_month_text, date_text, year_month_text};
use vstd::utf8::encode_utf8;
use chrono::Datelike;

verus! {

/// A period, from its first day to its last day, both included.
#[derive(Clone, Copy, Debug, PartialEq, Eq, Structural)]
pub struct Period {
    pub start_date: Date,
    pub end_date: Date,
}

impl Period {
    /// `date` falls within the period.
    pub open spec fn spec_contains(self, date: Date) -> bool {
        self.start_date.spec_le(date) && date.spec_le(self.end_date)
    }

    /// Whether `date` falls within the period (both ends included).
    pub fn contains(&self, date: &Date) -> (r: bool)
        ensures
            r == self.spec_contains(*date),
    {
        self.start_date.is_before_or_on(date) && date.is_before_or_on(&self.end_date)
    }

    /// Order of periods by start date, then by end date.
    pub open spec fn spec_precedes(self, other: Period) -> bool {
        self.start_date.spec_lt(other.start_date) || (self.start_date == other.start_date
            && self.end_date.spec_lt(other.end_date))
    }

    /// Whether `self` sorts strictly before `other`: by start date, then by end date.
    pub fn precedes(&self, other: &Period) -> (r: bool)
        ensures
            r == self.spec_precedes(*other),
    {
        self.start_date.is_before(&other.start_date) || (self.start_date.same_day(&other.start_date)
            && self.end_date.is_before(&other.end_date))
    }

    /// Whether `self` starts strictly before `other` (the partial order of periods).
    pub fn starts_before(&self, other: &Period) -> (r: bool)
        ensures
            r == self.start_date.spec_lt(other.start_date),
    {
        self.start_date.is_before(&other.start_date)
    }

    /// Same start and end.
    pub fn same_as(&self, other: &Period) -> (r: bool)
        ensures
            r == (*self == *other),
    {
        self.start_date.same_day(&other.start_date) && self.end_date.same_day(&other.end_date)
    }
}

/// The calendar month `month` of `year`, as a period.
pub open spec fn month_period(year: int, month: int) -> Period {
    Period {
        start_date: Date { year: year as i32, month: month as u32, day: 1 },
        end_date: Date { year: year as i32, month: month as u32, day: days_in_month(year, month) as u32 },
    }
}

/// What the first and last days of month `month` of `year` give: the month,
/// or the reason why they cannot be computed.
pub open spec fn month_period_result(year: int, month: int) -> Result<Period, Seq<char>> {
    if !valid_ymd(year, month, 1) {
        Err("Could not compute the first day of the month"@)
    } else if year == MAX_YEAR && month == 12 {
        Err("Could not compute the last day of the month"@)
    } else {
        Ok(month_period(year, month))
    }
}

/// The period of the calendar month `month` of `year`.
pub fn first_and_last_day_of_month(year: i32, month: u32) -> (r: Result<Period, String>)
    ensures
        result_is(r, month_period_result(year as int, month as int)),
{
    match crate::date::first_and_last_day_of_month(year, month) {
        Some((start_date, end_date)) => Ok(Period { start_date, end_date }),
        None => {
            if Date::from_ymd(year, month, 1).is_none() {
                Err(text("Could not compute the first day of the month"))
            } else {
                Err(text("Could not compute the last day of the month"))
            }
        },
    }
}

/// How `serde` words an unexpected string: `invalid value: string "..",
/// expected ..`, the string written as `Debug` writes it.
pub open spec fn invalid_value_text(s: Seq<char>, expected: Seq<char>) -> Seq<char> {
    "invalid value: string "@ + debug_text(s) + ", expected "@ + expected
}

/// The error text of an unexpected string.
fn invalid_value(s: &str, expected: &str) -> (r: String)
    ensures
        r@ == invalid_value_text(s@, expected@),
{
    let mut r = text("invalid value: string ");
    let shown = debug_string(s);
    r.append(shown.as_str());
    r.append(", expected ");
    r.append(expected);
    r
}

/// The format `%F` of `chrono`: `%Y-%m-%d`.
pub open spec fn iso_date_format() -> Seq<char> {
    "%F"@
}

/// What a text reads as, as a period: a text of 21 bytes is two ISO dates
/// (`%F`) around a single `/`; one of 7 bytes a year and a month around a
/// single `-`, read as the whole calendar month; any other length is an
/// error.
pub open spec fn period_text_parse(v: Seq<char>) -> Result<Period, Seq<char>> {
    let n = encode_utf8(v).len() as usize;
    if n == 21 {
        match single_split(v, '/') {
            None => Err(invalid_value_text(v, "Two ISO dates separated by a slash"@)),
            Some((a, b)) => match chrono_parsed_date(a, iso_date_format()) {
                Err(_) => Err(invalid_value_text(a, "an ISO date"@)),
                Ok(start_date) => match chrono_parsed_date(b, iso_date_format()) {
                    Err(_) => Err(invalid_value_text(b, "an ISO date"@)),
                    Ok(end_date) => Ok(Period { start_date, end_date }),
                },
            },
        }
    } else if n == 7 {
        match single_split(v, '-') {
            None => Err(invalid_value_text(v, "a year and a month separated by a dash"@)),
            Some((a, b)) => match parse_int_spec(a, true, i32::MIN as int, i32::MAX as int) {
                Err(_) => Err(invalid_value_text(a, "a valid number"@)),
                Ok(year) => match parse_int_spec(b, false, 0, u32::MAX as int) {
                    Err(_) => Err(invalid_value_text(b, "a valid number"@)),
                    Ok(month) => if !valid_ymd(year, month, 1) {
                        Err(invalid_value_text(v, "a valid month"@))
                    } else if year == MAX_YEAR && month == 12 {
                        Err("Could not construct month"@)
                    } else {
                        Ok(month_period(year, month))
                    },
                },
            },
        }
    } else {
        Err("invalid length "@ + decimal_digits(n as nat) + ", expected a either 7 or 21 characters long string"@)
    }
}

/// The last day that `chrono` can represent.
pub open spec fn last_representable_day(d: Date) -> bool {
    d.year == MAX_YEAR && d.month == 12 && d.day == 31
}

/// How a period is written: `%Y-%m` for a whole calendar month (it starts
/// on a first day and ends on the last day of a month), otherwise its two
/// dates in the format `%F` around a `/`.
pub open spec fn period_text(p: Period) -> Result<Seq<char>, Seq<char>> {
    let full = spec_date_text(p.start_date) + seq!['/'] + spec_date_text(p.end_date);
    if p.start_date.day == 1 {
        if last_representable_day(p.end_date) {
            Err("Could not compute day after end of month"@)
        } else if p.end_date.day as int == days_in_month(p.end_date.year as int, p.end_date.month as int) {
            Ok(spec_year_month_text(p.start_date))
        } else {
            Ok(full)
        }
    } else {
        Ok(full)
    }
}

/// `chrono::NaiveDate::succ_opt`: the day after a valid date, `None` for
/// the last day that `chrono` can represent.
#[verifier::external_body]
fn chrono_succ(d: &Date) -> (r: Option<Date>)
    requires
        d.wf(),
    ensures
        r == (if last_representable_day(*d) { None::<Date> } else { Some(next_day(*d)) }),
{
    match chrono::NaiveDate::from_ymd_opt(d.year, d.month, d.day).unwrap().succ_opt() {
        Some(e) => Some(Date { year: e.year(), month: e.month(), day: e.day() }),
        None => None,
    }
}

impl Period {
    /// Reads a period from its text (see `period_text_parse`); the text of a
    /// period written as two dates reads back as that period.
    #[verifier::rlimit(40)]
    pub fn from_text(v: &str) -> (r: Result<Period, String>)
        ensures
            result_is(r, period_text_parse(v@)),
            r matches Ok(p) ==> p.start_date.wf() && p.end_date.wf(),
            forall|p: Period| written_as_two_dates(p) && #[trigger] period_text(p) == Ok::<Seq<char>, Seq<char>>(v@)
                ==> r == Ok::<Period, String>(p),
    {
        let ghost written = exists|p: Period| written_as_two_dates(p) && #[trigger] period_text(p) == Ok::<Seq<char>, Seq<char>>(v@);
        let ghost wit = choose|p: Period| written_as_two_dates(p) && #[trigger] period_text(p) == Ok::<Seq<char>, Seq<char>>(v@);
        proof {
            if written {
                lemma_two_date_text(wit);
                assert forall|p: Period| written_as_two_dates(p) && #[trigger] period_text(p) == Ok::<Seq<char>, Seq<char>>(v@)
                    implies p == wit by {
                    lemma_two_date_text(p);
                    assert(single_split(v@, '/') == Some((spec_date_text(p.start_date), spec_date_text(p.end_date))));
                    lemma_date_text_injective(p.start_date, wit.start_date);
                    lemma_date_text_injective(p.end_date, wit.end_date);
                }
            }
        }
        let n = v.len();
        let chars = chars_of(v);
        let count = chars.len();
        if n == 21 {
            let i = match single_split_at(&chars, '/') {
                None => {
                    return Err(invalid_value(v, "Two ISO dates separated by a slash"));
                },
                Some(i) => i,
            };
            let raw_start = string_of(&sub_chars(&chars, 0, i));
            let raw_end = string_of(&sub_chars(&chars, i + 1, count));
            assert(raw_start@ =~= v@.take(i as int));
            assert(raw_end@ =~= v@.skip(i + 1));
            proof {
                reveal_strlit("%F");
                if written {
                    assert(raw_start@ == spec_date_text(wit.start_date));
                    assert(raw_end@ == spec_date_text(wit.end_date));
                    lemma_written_date_of(wit.start_date);
                    lemma_written_date_of(wit.end_date);
                }
            }
            let start_date = match parse_date(raw_start.as_str(), "%F") {
                Err(_) => {
                    return Err(invalid_value(raw_start.as_str(), "an ISO date"));
                },
                Ok(d) => d,
            };
            let end_date = match parse_date(raw_end.as_str(), "%F") {
                Err(_) => {
                    return Err(invalid_value(raw_end.as_str(), "an ISO date"));
                },
                Ok(d) => d,
            };
            Ok(Period { start_date, end_date })
        } else if n == 7 {
            let i = match single_split_at(&chars, '-') {
                None => {
                    return Err(invalid_value(v, "a year and a month separated by a dash"));
                },
                Some(i) => i,
            };
            let year_text = sub_chars(&chars, 0, i);
            let month_text = sub_chars(&chars, i + 1, count);
            assert(year_text@ =~= v@.take(i as int));
            assert(month_text@ =~= v@.skip(i + 1));
            let year = match parse_int(&year_text, true, i32::MIN as i64, i32::MAX as i64) {
                Err(_) => {
                    return Err(invalid_value(string_of(&year_text).as_str(), "a valid number"));
                },
                Ok(y) => y,
            };
            let month = match parse_int(&month_text, false, 0, u32::MAX as i64) {
                Err(_) => {
                    return Err(invalid_value(string_of(&month_text).as_str(), "a valid number"));
                },
                Ok(m) => m,
            };
            proof {
                crate::text::lemma_parse_int_bounds(year_text@, true, i32::MIN as int, i32::MAX as int);
                crate::text::lemma_parse_int_bounds(month_text@, false, 0, u32::MAX as int);
            }
            if Date::from_ymd(year as i32, month as u32, 1).is_none() {
                return Err(invalid_value(v, "a valid month"));
            }
            match crate::date::first_and_last_day_of_month(year as i32, month as u32) {
                Some((start_date, end_date)) => Ok(Period { start_date, end_date }),
                None => Err(text("Could not construct month")),
            }
        } else {
            let mut r = text("invalid length ");
            let digits = string_of(&format_nat(n as u64));
            r.append(digits.as_str());
            r.append(", expected a either 7 or 21 characters long string");
            Err(r)
        }
    }

    /// Writes the period (see `period_text`).
    pub fn to_text(&self) -> (r: Result<String, String>)
        requires
            self.start_date.wf(),
            self.end_date.wf(),
        ensures
            text_result_is(r, period_text(*self)),
    {
        if self.start_date.day == 1 {
            let next = chrono_succ(&self.end_date);
            match next {
                None => {
                    return Err(text("Could not compute day after end of month"));
                },
                Some(after) => {
                    if self.end_date.month != after.month {
                        return Ok(year_month_text(&self.start_date));
                    }
                },
            }
        }
        let mut r = date_text(&self.start_date);
        r.append("/");
        let end = date_text(&self.end_date);
        r.append(end.as_str());
        proof {
            reveal_strlit("/");
            assert(r@ =~= spec_date_text(self.start_date) + seq!['/'] + spec_date_text(self.end_date));
        }
        Ok(r)
    }
}

/// Why the number of periods between two dates cannot be computed.
#[derive(Clone, Debug, PartialEq, Eq)]
pub enum ErrorPeriodsBetween {
    EndBeforeStart,
    Miscelaneous(String),
}

impl ErrorPeriodsBetween {
    /// The error as a message.
    pub fn into_message(self) -> (r: String)
        ensures
            self is EndBeforeStart ==> r@ == "End date is before start date"@,
            self matches ErrorPeriodsBetween::Miscelaneous(s) ==> r@ == s@,
    {
        match self {
            ErrorPeriodsBetween::EndBeforeStart => text("End date is before start date"),
            ErrorPeriodsBetween::Miscelaneous(s) => s,
        }
    }
}

/// Index of the month of a date, counting months from year 0.
pub open spec fn month_index(d: Date) -> int {
    (d.year as int) * 12 + (d.month as int) - 1
}

/// The calendar month of a month index.
pub open spec fn month_of_index(k: int) -> Period {
    month_period(k / 12, k % 12 + 1)
}

/// Text identifying the calendar month starting a period: `YYYY-MM`.
pub open spec fn period_id(p: Period) -> Seq<char> {
    padded_int(p.start_date.year as int, 4) + seq!['-'] + padded_int(p.start_date.month as int, 2)
}

/// What reading a month identifier `YYYY-MM` gives.
pub open spec fn period_from_id_spec(s: Seq<char>) -> Result<Period, Seq<char>> {
    match first_index_of(s, '-') {
        None => Err("- character could not be found in Period definition"@),
        Some(i) => {
            let year = parse_int_spec(s.subrange(0, i), true, i32::MIN as int, i32::MAX as int);
            let month = parse_int_spec(s.subrange(i + 1, s.len() as int), false, 0, u32::MAX as int);
            match (year, month) {
                (Err(e), _) => Err(e.spec_message() + " not a valid integer"@),
                (_, Err(e)) => Err(e.spec_message() + " not a valid integer"@),
                (Ok(y), Ok(m)) => month_period_result(y, m),
            }
        },
    }
}

/// Periods that are the calendar months.
#[derive(Clone, Copy, Debug, PartialEq, Eq, Structural)]
pub struct CalendarMonthPeriodConfiguration {}

impl CalendarMonthPeriodConfiguration {
    /// The calendar month that holds `date`.
    pub fn period_for_date(&self, date: &Date) -> (r: Result<Period, String>)
        requires
            date.wf(),
        ensures
            result_is(r, month_period_result(date.year as int, date.month as int)),
            !(date.year == MAX_YEAR && date.month == 12) ==> r == Ok::<Period, String>(month_period(date.year as int, date.month as int)),
    {
        first_and_last_day_of_month(date.year, date.month)
    }

    /// Number of calendar months from the month of `start` to that of
    /// `end`, both included.
    pub fn periods_between_nb(&self, start: &Date, end: &Date) -> (r: Result<u16, ErrorPeriodsBetween>)
        requires
            start.wf(),
            end.wf(),
            start.spec_le(*end) ==> (end.year - start.year + 1) * 12 <= u16::MAX,
        ensures
            end.spec_lt(*start) ==> r == Err::<u16, ErrorPeriodsBetween>(ErrorPeriodsBetween::EndBeforeStart),
            start.spec_le(*end) ==> r == Ok::<u16, ErrorPeriodsBetween>((month_index(*end) - month_index(*start) + 1) as u16),
    {
        if end.is_before(start) {
            return Err(ErrorPeriodsBetween::EndBeforeStart);
        }
        let full_years = (end.year - start.year + 1) as u16;
        let month_to_start = (start.month - 1) as u16;
        let end_year_end = (12 - end.month) as u16;
        Ok(full_years * 12 - month_to_start - end_year_end)
    }

    /// The calendar months from that of `start` to that of `end`, both
    /// included, in chronological order.
    pub fn periods_between(&self, start: &Period, end: &Period) -> (r: Result<Vec<Period>, ErrorPeriodsBetween>)
        requires
            start.start_date.wf(),
            end.start_date.wf(),
            !(end.start_date.year == MAX_YEAR && end.start_date.month == 12),
        ensures
            month_index(end.start_date) < month_index(start.start_date) ==> r == Err::<Vec<Period>, ErrorPeriodsBetween>(ErrorPeriodsBetween::EndBeforeStart),
            month_index(start.start_date) <= month_index(end.start_date) ==> (r matches Ok(v) && v@.len() == month_index(end.start_date) - month_index(start.start_date) + 1
                && forall|i: int| 0 <= i < v@.len() ==> #[trigger] v@[i] == month_of_index(month_index(start.start_date) + i)),
    {
        let first = start.start_date;
        let last = end.start_date;
        if last.year < first.year || (last.year == first.year && last.month < first.month) {
            return Err(ErrorPeriodsBetween::EndBeforeStart);
        }
        let ghost k0 = month_index(first);
        let mut v: Vec<Period> = Vec::new();
        let mut year = first.year;
        let mut month = first.month;
        loop
            invariant_except_break
                MIN_YEAR <= year <= last.year,
                1 <= month <= 12,
                year < last.year || month <= last.month,
                last.wf(),
                !(last.year == MAX_YEAR && last.month == 12),
                (year as int) * 12 + month - 1 == k0 + v@.len(),
                forall|i: int| 0 <= i < v@.len() ==> #[trigger] v@[i] == month_of_index(k0 + i),
            ensures
                v@.len() == month_index(last) - k0 + 1,
                forall|i: int| 0 <= i < v@.len() ==> #[trigger] v@[i] == month_of_index(k0 + i),
            decreases (last.year - year) * 12 + last.month - month,
        {
            let ghost k = (year as int) * 12 + month - 1;
            assert(k / 12 == year as int && k % 12 + 1 == month as int) by (nonlinear_arith)
                requires k == (year as int) * 12 + month - 1, 1 <= month <= 12;
            let p = match first_and_last_day_of_month(year, month) {
                Ok(p) => p,
                Err(_) => {
                    assert(false);
                    return Err(ErrorPeriodsBetween::EndBeforeStart);
                },
            };
            v.push(p);
            if year == last.year && month == last.month {
                break;
            }
            if month == 12 {
                year = year + 1;
                month = 1;
            } else {
                month = month + 1;
            }
        }
        Ok(v)
    }

    /// The identifier `YYYY-MM` of the month that starts the period.
    pub fn id_for_period(&self, period: &Period) -> (r: Result<String, String>)
        ensures
            r matches Ok(s) && s@ == period_id(*period),
    {
        let mut chars = format_padded(period.start_date.year as i64, 4);
        chars.push('-');
        let month = format_padded(period.start_date.month as i64, 2);
        let mut i: usize = 0;
        let ghost prefix = chars@;
        while i < month.len()
            invariant
                i <= month@.len(),
                chars@ == prefix + month@.subrange(0, i as int),
            decreases month.len() - i,
        {
            chars.push(month[i]);
            i = i + 1;
            assert(chars@ =~= prefix + month@.subrange(0, i as int));
        }
        assert(month@.subrange(0, month@.len() as int) =~= month@);
        assert(chars@ =~= period_id(*period));
        Ok(string_of(&chars))
    }

    /// The calendar month named by an identifier `YYYY-MM`.
    pub fn period_from_id(value: &str) -> (r: Result<Period, String>)
        ensures
            result_is(r, period_from_id_spec(value@)),
    {
        let chars = chars_of(value);
        match find_char(&chars, '-') {
            None => Err(text("- character could not be found in Period definition")),
            Some(i) => {
                let year_text = sub_chars(&chars, 0, i);
                let month_text = sub_chars(&chars, i + 1, chars.len());
                let year = parse_int(&year_text, true, i32::MIN as i64, i32::MAX as i64);
                let month = parse_int(&month_text, false, 0, u32::MAX as i64);
                match (year, month) {
                    (Err(e), _) => {
                        let mut m = e.message();
                        m.append(" not a valid integer");
                        Err(m)
                    },
                    (_, Err(e)) => {
                        let mut m = e.message();
                        m.append(" not a valid integer");
                        Err(m)
                    },
                    (Ok(y), Ok(mo)) => {
                        proof {
                            crate::text::lemma_parse_int_bounds(year_text@, true, i32::MIN as int, i32::MAX as int);
                            crate::text::lemma_parse_int_bounds(month_text@, false, 0, u32::MAX as int);
                        }
                        first_and_last_day_of_month(y as i32, mo as u32)
                    },
                }
            },
        }
    }

    /// The calendar month before the one starting the period: the month
    /// before in the same year, or December of the year before for a
    /// January.
    pub fn previous_period(&self, period: &Period) -> (r: Result<Period, String>)
        requires
            1 <= period.start_date.month,
        ensures
            result_is(r, if period.start_date.month == 1 {
                month_period_result(period.start_date.year - 1, 12)
            } else {
                month_period_result(period.start_date.year as int, period.start_date.month - 1)
            }),
    {
        if period.start_date.month == 1 {
            if period.start_date.year == i32::MIN {
                return Err(text("Could not compute the first day of the month"));
            }
            first_and_last_day_of_month(period.start_date.year - 1, 12)
        } else {
            first_and_last_day_of_month(period.start_date.year, period.start_date.month - 1)
        }
    }
}

/// A date is before the start of a periods configuration.
#[derive(Clone, Copy, Debug, PartialEq, Eq, Structural)]
pub struct ErrorStartBeforePeriodConfiguration;

/// Periods of `period_in_days` days, the first starting on `start_date`.
#[derive(Clone, Copy, Debug, PartialEq, Eq, Structural)]
pub struct FixedLengthPeriodConfiguration {
    pub start_date: Date,
    pub period_in_days: u8,
}

impl FixedLengthPeriodConfiguration {
    /// The configuration can compute periods.
    pub open spec fn wf(self) -> bool {
        self.start_date.wf() && self.period_in_days > 0
    }

    /// Days from the configuration's start to `date`.
    pub open spec fn offset(self, date: Date) -> int {
        date.days() - self.start_date.days()
    }

    /// The days from the start to `date` as a `u16` holds them: modulo
    /// `2^16` (the count wraps after about 179 years).
    #[verifier::opaque]
    pub open spec fn wrapped_offset(self, date: Date) -> int {
        self.offset(date) % 65536
    }

    /// The wrapped day count is that of a `u16`, and so is the period
    /// number; a day count that fits is kept as it is.
    pub proof fn lemma_wrapped_offset(self, date: Date)
        requires
            self.wf(),
        ensures
            0 <= self.wrapped_offset(date) < 65536,
            0 <= self.spec_period_number(date) <= self.wrapped_offset(date),
            0 <= self.offset(date) < 65536 ==> self.wrapped_offset(date) == self.offset(date),
    {
        reveal(FixedLengthPeriodConfiguration::wrapped_offset);
        lemma_period_number(self.wrapped_offset(date), self.period_in_days as int);
    }

    /// Number of the period holding `date`, counted from 0 on the wrapped
    /// day count.
    pub open spec fn spec_period_number(self, date: Date) -> int {
        self.wrapped_offset(date) / (self.period_in_days as int)
    }

    /// Day count of the first day of period number `n`.
    pub open spec fn period_start_days(self, n: int) -> int {
        self.start_date.days() + n * self.period_in_days
    }

    /// Number of the period that holds `date`.
    pub fn period_number_for_date(&self, date: &Date) -> (r: Result<u16, ErrorStartBeforePeriodConfiguration>)
        requires
            self.wf(),
            date.wf(),
        ensures
            date.spec_lt(self.start_date) ==> r is Err,
            !date.spec_lt(self.start_date) ==> r == Ok::<u16, ErrorStartBeforePeriodConfiguration>(self.spec_period_number(*date) as u16),
    {
        if date.is_before(&self.start_date) {
            return Err(ErrorStartBeforePeriodConfiguration);
        }
        proof {
            lemma_days_monotonic(self.start_date, *date);
            crate::date::lemma_days_bounds(*date);
            crate::date::lemma_days_bounds(self.start_date);
            self.lemma_wrapped_offset(*date);
            reveal(FixedLengthPeriodConfiguration::wrapped_offset);
        }
        let days: i32 = date.days_from_ce() - self.start_date.days_from_ce();
        let days_since_start = (days % 65536) as u16;
        Ok(days_since_start / self.period_in_days as u16)
    }

    /// The period that holds `date`.
    pub fn period_for_date(&self, date: &Date) -> (r: Result<Period, String>)
        requires
            self.wf(),
            date.wf(),
        ensures
            date.spec_lt(self.start_date) ==> (r matches Err(e) && e@ == "Date is before PeriodsConfiguration's start"@),
            r matches Ok(p) ==> p.start_date.wf() && p.end_date.wf()
                && p.start_date.days() == self.period_start_days(self.spec_period_number(*date))
                && p.end_date.days() == self.period_start_days(self.spec_period_number(*date) + 1) - 1,
            (!date.spec_lt(self.start_date)
                && (exists|e: Date| e.wf() && e.days() == self.period_start_days(self.spec_period_number(*date) + 1) - 1))
                ==> r is Ok,
            !date.spec_lt(self.start_date) ==> (r matches Err(e) ==> e@ == "Date is out of the calendar's range"@),
    {
        let n = match self.period_number_for_date(date) {
            Ok(n) => n,
            Err(_) => return Err(text("Date is before PeriodsConfiguration's start")),
        };
        proof {
            lemma_days_monotonic(self.start_date, *date);
            self.lemma_wrapped_offset(*date);
            lemma_period_number(self.wrapped_offset(*date), self.period_in_days as int);
            assert(n as int * self.period_in_days as int <= 65535 * 255) by (nonlinear_arith)
                requires n <= 65535, self.period_in_days <= 255;
        }
        let start_from_config_start = n as u64 * self.period_in_days as u64;
        assert(start_from_config_start == self.period_start_days(self.spec_period_number(*date)) - self.start_date.days());
        let end_from_config_start = start_from_config_start + (self.period_in_days as u64 - 1);
        let start = self.start_date.checked_add_days(start_from_config_start);
        let end = self.start_date.checked_add_days(end_from_config_start);
        match (start, end) {
            (Some(start_date), Some(end_date)) => Ok(Period { start_date, end_date }),
            _ => {
                proof {
                    if exists|e: Date| e.wf() && e.days() == self.period_start_days(self.spec_period_number(*date) + 1) - 1 {
                        let e = choose|e: Date| e.wf() && e.days() == self.period_start_days(self.spec_period_number(*date) + 1) - 1;
                        lemma_days_between(self.start_date, e, self.start_date.days() + start_from_config_start);
                    }
                }
                Err(text("Date is out of the calendar's range"))
            },
        }
    }

    /// Number of periods from the one holding `start` to the one holding
    /// `end`, both included.
    pub fn number_of_periods_between(&self, start: &Date, end: &Date) -> (r: Result<u16, String>)
        requires
            self.wf(),
            start.wf(),
            end.wf(),
            start.spec_le(*end) && !start.spec_lt(self.start_date) ==> self.counts_within_u16(*start, *end),
        ensures
            end.spec_lt(*start) ==> (r matches Err(e) && e@ == "Start date is after end date"@),
            start.spec_le(*end) && start.spec_lt(self.start_date) && end.spec_lt(self.start_date)
                ==> (r matches Err(e) && e@ == "Dates before PeriodsConfiguration's start"@),
            start.spec_le(*end) && start.spec_lt(self.start_date) && !end.spec_lt(self.start_date)
                ==> (r matches Err(e) && e@ == "Start date is before PeriodsConfiguration's start"@),
            start.spec_le(*end) && !start.spec_lt(self.start_date)
                ==> r == Ok::<u16, String>((self.spec_period_number(*end) + 1 - self.spec_period_number(*start)) as u16),
    {
        if end.is_before(start) {
            return Err(text("Start date is after end date"));
        }
        match (self.period_number_for_date(start), self.period_number_for_date(end)) {
            (Ok(s), Ok(e)) => {
                proof {
                    self.lemma_wrapped_offset(*start);
                    self.lemma_wrapped_offset(*end);
                }
                Ok((e + 1) - s)
            },
            (Err(_), Err(_)) => Err(text("Dates before PeriodsConfiguration's start")),
            (Err(_), _) => Err(text("Start date is before PeriodsConfiguration's start")),
            (_, Err(_)) => Err(text("End date is before PeriodsConfiguration's start")),
        }
    }
}

proof fn lemma_period_number(offset: int, len: int)
    requires
        0 <= offset,
        len > 0,
    ensures
        0 <= offset / len <= offset,
        (offset / len) * len <= offset < (offset / len) * len + len,
        (offset / len + 1) * len == (offset / len) * len + len,
{
    assert(0 <= offset / len <= offset && (offset / len) * len <= offset < (offset / len) * len + len) by (nonlinear_arith)
        requires 0 <= offset, len > 0;
    assert((offset / len + 1) * len == (offset / len) * len + len) by (nonlinear_arith);
}

/// Between two dates, every day count has a date: if the day count `x`
/// lies between those of `a` and `b`, some valid date has it.
pub proof fn lemma_days_between(a: Date, b: Date, x: int)
    requires
        a.wf(),
        b.wf(),
        a.days() <= x <= b.days(),
    ensures
        exists|c: Date| c.wf() && c.days() == x,
    decreases x - a.days(),
{
    if x == a.days() {
        assert(a.wf() && a.days() == x);
    } else {
        if b.spec_le(a) {
            lemma_days_monotonic(b, a);
            assert(false);
        }
        let n = next_day(a);
        lemma_next_day(a);
        lemma_days_between(n, b, x);
    }
}

/// The day after `d`.
pub open spec fn next_day(d: Date) -> Date {
    if (d.day as int) < days_in_month(d.year as int, d.month as int) {
        Date { year: d.year, month: d.month, day: (d.day + 1) as u32 }
    } else if d.month < 12 {
        Date { year: d.year, month: (d.month + 1) as u32, day: 1 }
    } else {
        Date { year: (d.year + 1) as i32, month: 1, day: 1 }
    }
}

/// The day after a date that is not the last one `chrono` can represent
/// is valid and counts one more day.
pub proof fn lemma_next_day(d: Date)
    requires
        d.wf(),
        !(d.year == MAX_YEAR && d.month == 12 && d.day == 31),
    ensures
        next_day(d).wf(),
        next_day(d).days() == d.days() + 1,
        d.spec_lt(next_day(d)),
{
    if (d.day as int) < days_in_month(d.year as int, d.month as int) {
    } else if d.month < 12 {
        lemma_days_before_next_month(d.year as int, d.month as int);
    } else {
        lemma_year_length(d.year as int);
    }
}

/// Two valid dates with the same day count are the same date.
pub proof fn lemma_days_injective(a: Date, b: Date)
    requires
        a.wf(),
        b.wf(),
        a.days() == b.days(),
    ensures
        a == b,
{
    if a.spec_lt(b) {
        lemma_days_monotonic(a, b);
    } else if b.spec_lt(a) {
        lemma_days_monotonic(b, a);
    }
}

impl FixedLengthPeriodConfiguration {
    /// Counting the periods from `start` to `end` stays within a `u16`: the
    /// end's period number is below `u16::MAX` and the start's is at most
    /// one more than the end's.
    pub open spec fn counts_within_u16(self, start: Date, end: Date) -> bool {
        &&& self.spec_period_number(end) < u16::MAX
        &&& self.spec_period_number(start) <= self.spec_period_number(end) + 1
    }

    /// The period of `period_in_days` days that holds `date`, where both its
    /// ends are in the calendar's range.
    pub open spec fn spec_period_of(self, date: Date) -> Period {
        choose|p: Period| p.start_date.wf() && p.end_date.wf()
            && p.start_date.days() == self.period_start_days(self.spec_period_number(date))
            && p.end_date.days() == self.period_start_days(self.spec_period_number(date) + 1) - 1
    }

    /// The last day of the period holding `date` is in the calendar's range.
    pub open spec fn period_end_exists(self, date: Date) -> bool {
        exists|e: Date| e.wf() && e.days() == self.period_start_days(self.spec_period_number(date) + 1) - 1
    }

    /// What `period_for_date` gives.
    pub open spec fn spec_period_for_date(self, date: Date) -> Result<Period, Seq<char>> {
        if date.spec_lt(self.start_date) {
            Err("Date is before PeriodsConfiguration's start"@)
        } else if self.period_end_exists(date) {
            Ok(self.spec_period_of(date))
        } else {
            Err("Date is out of the calendar's range"@)
        }
    }

    /// What `number_of_periods_between` gives.
    pub open spec fn spec_number_of_periods_between(self, start: Date, end: Date) -> Result<int, Seq<char>> {
        if end.spec_lt(start) {
            Err("Start date is after end date"@)
        } else if start.spec_lt(self.start_date) && end.spec_lt(self.start_date) {
            Err("Dates before PeriodsConfiguration's start"@)
        } else if start.spec_lt(self.start_date) {
            Err("Start date is before PeriodsConfiguration's start"@)
        } else {
            Ok(self.spec_period_number(end) + 1 - self.spec_period_number(start))
        }
    }
}

/// A periods configuration of either kind.
#[derive(Clone, Copy, Debug, PartialEq, Eq, Structural)]
pub enum AnyPeriodsConfiguration {
    FixedLength(FixedLengthPeriodConfiguration),
    CalendarMonth(CalendarMonthPeriodConfiguration),
}

impl AnyPeriodsConfiguration {
    /// The configuration can compute the period of `date`.
    pub open spec fn handles(self, date: Date) -> bool {
        &&& date.wf()
        &&& match self {
            AnyPeriodsConfiguration::FixedLength(c) => c.wf(),
            AnyPeriodsConfiguration::CalendarMonth(_) => true,
        }
    }

    /// The configuration can count the periods from `start` to `end`.
    pub open spec fn handles_span(self, start: Date, end: Date) -> bool {
        &&& self.handles(start)
        &&& self.handles(end)
        &&& match self {
            AnyPeriodsConfiguration::FixedLength(c) => start.spec_le(end) && !start.spec_lt(c.start_date) ==> c.counts_within_u16(start, end),
            AnyPeriodsConfiguration::CalendarMonth(_) => start.spec_le(end) ==> (end.year - start.year + 1) * 12 <= u16::MAX,
        }
    }

    /// From `start` to `end`, the periods do not go backwards, so counting
    /// them gives at least one; a fixed-length configuration numbers them
    /// on a day count that wraps (see `wrapped_offset`).
    pub open spec fn counts_forward(self, start: Date, end: Date) -> bool {
        match self {
            AnyPeriodsConfiguration::FixedLength(c) => start.spec_le(end) && !start.spec_lt(c.start_date)
                ==> c.spec_period_number(start) <= c.spec_period_number(end),
            AnyPeriodsConfiguration::CalendarMonth(_) => true,
        }
    }

    /// What `period_for_date` gives.
    pub open spec fn spec_period_for_date(self, date: Date) -> Result<Period, Seq<char>> {
        match self {
            AnyPeriodsConfiguration::FixedLength(c) => c.spec_period_for_date(date),
            AnyPeriodsConfiguration::CalendarMonth(_) => month_period_result(date.year as int, date.month as int),
        }
    }

    /// What `number_of_periods_between` gives.
    pub open spec fn spec_number_of_periods_between(self, start: Date, end: Date) -> Result<int, Seq<char>> {
        match self {
            AnyPeriodsConfiguration::FixedLength(c) => c.spec_number_of_periods_between(start, end),
            AnyPeriodsConfiguration::CalendarMonth(_) => if end.spec_lt(start) {
                Err("End date is before start date"@)
            } else {
                Ok(month_index(end) - month_index(start) + 1)
            },
        }
    }

    /// The period that holds `date`.
    pub fn period_for_date(&self, date: &Date) -> (r: Result<Period, String>)
        requires
            self.handles(*date),
        ensures
            result_is(r, self.spec_period_for_date(*date)),
    {
        match self {
            AnyPeriodsConfiguration::FixedLength(c) => {
                let r = c.period_for_date(date);
                proof {
                    if let Ok(p) = r {
                        assert(p.start_date.wf() && p.end_date.wf()
                            && p.start_date.days() == c.period_start_days(c.spec_period_number(*date))
                            && p.end_date.days() == c.period_start_days(c.spec_period_number(*date) + 1) - 1);
                        let q = c.spec_period_of(*date);
                        assert(c.period_end_exists(*date));
                        lemma_days_injective(p.start_date, q.start_date);
                        lemma_days_injective(p.end_date, q.end_date);
                    }
                }
                r
            },
            AnyPeriodsConfiguration::CalendarMonth(c) => c.period_for_date(date),
        }
    }

    /// Number of periods from the one holding `start` to the one holding
    /// `end`, both included.
    pub fn number_of_periods_between(&self, start: &Date, end: &Date) -> (r: Result<u16, String>)
        requires
            self.handles_span(*start, *end),
        ensures
            match self.spec_number_of_periods_between(*start, *end) {
                Ok(n) => r == Ok::<u16, String>(n as u16) && 0 <= n <= u16::MAX,
                Err(m) => r matches Err(e) && e@ == m,
            },
    {
        match self {
            AnyPeriodsConfiguration::FixedLength(c) => {
                proof {
                    c.lemma_wrapped_offset(*start);
                    c.lemma_wrapped_offset(*end);
                }
                c.number_of_periods_between(start, end)
            },
            AnyPeriodsConfiguration::CalendarMonth(c) => match c.periods_between_nb(start, end) {
                Ok(n) => Ok(n),
                Err(e) => Err(e.into_message()),
            },
        }
    }
}

/// The kinds of periods configurations that the vault can name.
#[derive(Clone, Copy, Debug, PartialEq, Eq, Structural)]
pub enum PeriodConfigurationVaultValue {
    CalendarMonth,
}

impl PeriodConfigurationVaultValue {
    /// The calendar month that holds `date`.
    pub fn period_for_date(&self, date: &Date) -> (r: Result<Period, String>)
        requires
            date.wf(),
        ensures
            result_is(r, month_period_result(date.year as int, date.month as int)),
    {
        CalendarMonthPeriodConfiguration {}.period_for_date(date)
    }

    /// Number of calendar months from the month of `start` to that of `end`,
    /// both included (see `CalendarMonthPeriodConfiguration::periods_between_nb`).
    pub fn periods_between_nb(&self, start: &Date, end: &Date) -> (r: Result<u16, ErrorPeriodsBetween>)
        requires
            start.wf(),
            end.wf(),
            start.spec_le(*end) ==> (end.year - start.year + 1) * 12 <= u16::MAX,
        ensures
            end.spec_lt(*start) ==> r == Err::<u16, ErrorPeriodsBetween>(ErrorPeriodsBetween::EndBeforeStart),
            start.spec_le(*end) ==> r == Ok::<u16, ErrorPeriodsBetween>((month_index(*end) - month_index(*start) + 1) as u16),
    {
        CalendarMonthPeriodConfiguration {}.periods_between_nb(start, end)
    }

    /// The calendar months between two periods (see
    /// `CalendarMonthPeriodConfiguration::periods_between`).
    pub fn periods_between(&self, start: &Period, end: &Period) -> (r: Result<Vec<Period>, ErrorPeriodsBetween>)
        requires
            start.start_date.wf(),
            end.start_date.wf(),
            !(end.start_date.year == MAX_YEAR && end.start_date.month == 12),
        ensures
            month_index(end.start_date) < month_index(start.start_date) ==> r == Err::<Vec<Period>, ErrorPeriodsBetween>(ErrorPeriodsBetween::EndBeforeStart),
            month_index(start.start_date) <= month_index(end.start_date) ==> (r matches Ok(v) && v@.len() == month_index(end.start_date) - month_index(start.start_date) + 1
                && forall|i: int| 0 <= i < v@.len() ==> #[trigger] v@[i] == month_of_index(month_index(start.start_date) + i)),
    {
        CalendarMonthPeriodConfiguration {}.periods_between(start, end)
    }

    /// The identifier `YYYY-MM` of a month.
    pub fn id_for_period(&self, period: &Period) -> (r: Result<String, String>)
        ensures
            r matches Ok(s) && s@ == period_id(*period),
    {
        CalendarMonthPeriodConfiguration {}.id_for_period(period)
    }
}

/// A month written as its identifier `YYYY-MM` reads back as the same month
/// (for years from 0 on, whose identifier has no sign).
pub proof fn law_period_id_round_trip(year: int, month: int)
    requires
        0 <= year <= MAX_YEAR,
        1 <= month <= 12,
        !(year == MAX_YEAR && month == 12),
    ensures
        period_from_id_spec(period_id(month_period(year, month))) == Ok::<Period, Seq<char>>(month_period(year, month)),
{
    let p = month_period(year, month);
    let ys = padded_int(year, 4);
    let ms = padded_int(month, 2);
    let s = period_id(p);
    crate::text::lemma_parse_padded(year as nat, 4, true, i32::MIN as int, i32::MAX as int);
    crate::text::lemma_parse_padded(month as nat, 2, false, 0, u32::MAX as int);
    assert(s == ys + seq!['-'] + ms);
    let i = ys.len() as int;
    assert(s[i] == '-');
    assert forall|j: int| 0 <= j < i implies s[j] != '-' by {
        assert(s[j] == ys[j]);
    }
    assert(first_index_of(s, '-') == Some(i)) by {
        let k = choose|k: int| 0 <= k < s.len() && s[k] == '-' && forall|j: int| 0 <= j < k ==> s[j] != '-';
        if k < i { } else if k > i { }
    }
    assert(s.subrange(0, i) =~= ys);
    assert(s.subrange(i + 1, s.len() as int) =~= ms);
}

/// A number below 10^k has at most k decimal digits.
proof fn lemma_digits_at_most(n: nat, k: nat)
    requires
        k >= 1,
        n < crate::amounts::pow10(k),
    ensures
        decimal_digits(n).len() <= k,
    decreases k,
{
    reveal_with_fuel(crate::amounts::pow10, 2);
    if n >= 10 {
        assert(k >= 2) by {
            if k == 1 {
                assert(crate::amounts::pow10(1) == 10);
            }
        }
        assert(crate::amounts::pow10(k) == 10 * crate::amounts::pow10((k - 1) as nat));
        assert(n / 10 < crate::amounts::pow10((k - 1) as nat));
        lemma_digits_at_most(n / 10, (k - 1) as nat);
    }
}

/// A whole calendar month of a year from 0 to 9999 is written `YYYY-MM`,
/// and that text reads back as the same month.
pub proof fn law_period_text_round_trip(year: int, month: int)
    requires
        0 <= year <= 9999,
        1 <= month <= 12,
    ensures
        period_text(month_period(year, month)) matches Ok(t) && period_text_parse(t) == Ok::<Period, Seq<char>>(month_period(year, month)),
{
    let p = month_period(year, month);
    let ys = padded_int(year, 4);
    let ms = padded_int(month, 2);
    reveal_with_fuel(crate::amounts::pow10, 5);
    lemma_digits_at_most(year as nat, 4);
    lemma_digits_at_most(month as nat, 2);
    assert(ys.len() == 4);
    assert(ms.len() == 2);
    assert(spec_year_month_text(p.start_date) == ys + seq!['-'] + ms);
    let t = ys + seq!['-'] + ms;
    assert(period_text(p) == Ok::<Seq<char>, Seq<char>>(t));
    crate::text::lemma_parse_padded(year as nat, 4, true, i32::MIN as int, i32::MAX as int);
    crate::text::lemma_parse_padded(month as nat, 2, false, 0, u32::MAX as int);
    assert(t.len() == 7);
    assert(vstd::utf8::is_ascii_chars(t)) by {
        assert forall|i: int| 0 <= i < t.len() implies '\0' <= #[trigger] t[i] <= '\u{7f}' by {
            if i < 4 {
                assert(t[i] == ys[i]);
            } else if i > 4 {
                assert(t[i] == ms[i - 5]);
            }
        }
    }
    vstd::utf8::is_ascii_chars_encode_utf8(t);
    assert(encode_utf8(t).len() == 7);
    assert(t[4] == '-');
    assert forall|j: int| 0 <= j < 4 implies t[j] != '-' by {
        assert(t[j] == ys[j]);
    }
    assert(first_index_of(t, '-') == Some(4int)) by {
        let k = choose|k: int| 0 <= k < t.len() && t[k] == '-' && forall|j: int| 0 <= j < k ==> t[j] != '-';
        if k < 4 { } else if k > 4 { }
    }
    assert forall|j: int| 4 < j < t.len() implies t[j] != '-' by {
        assert(t[j] == ms[j - 5]);
    }
    assert(t.take(4) =~= ys);
    assert(t.skip(5) =~= ms);
    assert(single_split(t, '-') == Some((ys, ms)));
}


/// A period whose text is its two dates: both dates valid with years from 0
/// to 9999, and not a whole-month period (which is written `YYYY-MM`).
pub open spec fn written_as_two_dates(p: Period) -> bool {
    &&& p.start_date.wf() && p.end_date.wf()
    &&& 0 <= p.start_date.year <= 9999 && 0 <= p.end_date.year <= 9999
    &&& !(p.start_date.day == 1 && p.end_date.day as int == days_in_month(p.end_date.year as int, p.end_date.month as int))
}

/// The text of a valid date of a year from 0 to 9999: ten characters, the
/// year, month and day written with four, two and two digits, separated by
/// dashes; it holds no slash and only ASCII characters.
proof fn lemma_date_text_parts(d: Date)
    requires
        d.wf(),
        0 <= d.year <= 9999,
    ensures
        spec_date_text(d).len() == 10,
        spec_date_text(d).take(4) == padded_int(d.year as int, 4),
        spec_date_text(d).subrange(5, 7) == padded_int(d.month as int, 2),
        spec_date_text(d).skip(8) == padded_int(d.day as int, 2),
        forall|i: int| 0 <= i < 10 ==> #[trigger] spec_date_text(d)[i] != '/' && '\0' <= spec_date_text(d)[i] <= '\u{7f}',
{
    let t = spec_date_text(d);
    let ys = padded_int(d.year as int, 4);
    let ms = padded_int(d.month as int, 2);
    let ds = padded_int(d.day as int, 2);
    reveal_with_fuel(crate::amounts::pow10, 5);
    lemma_digits_at_most(d.year as nat, 4);
    lemma_digits_at_most(d.month as nat, 2);
    lemma_digits_at_most(d.day as nat, 2);
    crate::text::lemma_parse_padded(d.year as nat, 4, true, i32::MIN as int, i32::MAX as int);
    crate::text::lemma_parse_padded(d.month as nat, 2, false, 0, u32::MAX as int);
    crate::text::lemma_parse_padded(d.day as nat, 2, false, 0, u32::MAX as int);
    assert(ys.len() == 4 && ms.len() == 2 && ds.len() == 2);
    assert(t == ys + seq!['-'] + ms + seq!['-'] + ds);
    assert(t.take(4) =~= ys);
    assert(t.subrange(5, 7) =~= ms);
    assert(t.skip(8) =~= ds);
    assert forall|i: int| 0 <= i < 10 implies #[trigger] t[i] != '/' && '\0' <= t[i] <= '\u{7f}' by {
        if i < 4 {
            assert(t[i] == ys[i]);
        } else if 4 < i < 7 {
            assert(t[i] == ms[i - 5]);
        } else if i > 7 {
            assert(t[i] == ds[i - 8]);
        }
    }
}

/// Two valid dates of years from 0 to 9999 with the same text are the
/// same date.
proof fn lemma_date_text_injective(a: Date, b: Date)
    requires
        a.wf(),
        b.wf(),
        0 <= a.year <= 9999,
        0 <= b.year <= 9999,
        spec_date_text(a) == spec_date_text(b),
    ensures
        a == b,
{
    lemma_date_text_parts(a);
    lemma_date_text_parts(b);
    crate::text::lemma_parse_padded(a.year as nat, 4, true, i32::MIN as int, i32::MAX as int);
    crate::text::lemma_parse_padded(b.year as nat, 4, true, i32::MIN as int, i32::MAX as int);
    crate::text::lemma_parse_padded(a.month as nat, 2, false, 0, u32::MAX as int);
    crate::text::lemma_parse_padded(b.month as nat, 2, false, 0, u32::MAX as int);
    crate::text::lemma_parse_padded(a.day as nat, 2, false, 0, u32::MAX as int);
    crate::text::lemma_parse_padded(b.day as nat, 2, false, 0, u32::MAX as int);
}

/// The text of a period written as two dates is 21 bytes long and splits at
/// its one slash into the texts of the two dates.
proof fn lemma_two_date_text(p: Period)
    requires
        written_as_two_dates(p),
    ensures
        period_text(p) == Ok::<Seq<char>, Seq<char>>(spec_date_text(p.start_date) + seq!['/'] + spec_date_text(p.end_date)),
        encode_utf8(spec_date_text(p.start_date) + seq!['/'] + spec_date_text(p.end_date)).len() == 21,
        single_split(spec_date_text(p.start_date) + seq!['/'] + spec_date_text(p.end_date), '/')
            == Some((spec_date_text(p.start_date), spec_date_text(p.end_date))),
{
    let a = spec_date_text(p.start_date);
    let b = spec_date_text(p.end_date);
    let t = a + seq!['/'] + b;
    lemma_date_text_parts(p.start_date);
    lemma_date_text_parts(p.end_date);
    assert(t.len() == 21);
    assert(vstd::utf8::is_ascii_chars(t)) by {
        assert forall|i: int| 0 <= i < t.len() implies '\0' <= #[trigger] t[i] <= '\u{7f}' by {
            if i < 10 {
                assert(t[i] == a[i]);
            } else if i > 10 {
                assert(t[i] == b[i - 11]);
            }
        }
    }
    vstd::utf8::is_ascii_chars_encode_utf8(t);
    assert(t[10] == '/');
    assert forall|j: int| 0 <= j < 10 implies t[j] != '/' by {
        assert(t[j] == a[j]);
    }
    assert(first_index_of(t, '/') == Some(10int)) by {
        let k = choose|k: int| 0 <= k < t.len() && t[k] == '/' && forall|j: int| 0 <= j < k ==> t[j] != '/';
        if k < 10 { } else if k > 10 { }
    }
    assert forall|j: int| 10 < j < t.len() implies t[j] != '/' by {
        assert(t[j] == b[j - 11]);
    }
    assert(t.take(10) =~= a);
    assert(t.skip(11) =~= b);
}


/// The text of a valid date of a year from 0 to 9999 is written by that
/// date alone.
proof fn lemma_written_date_of(d: Date)
    requires
        d.wf(),
        0 <= d.year <= 9999,
    ensures
        crate::date::written_date(spec_date_text(d)) == Some(d),
{
    let t = spec_date_text(d);
    assert(d.wf() && 0 <= d.year <= 9999 && t == spec_date_text(d));
    let d0 = choose|e: Date| e.wf() && 0 <= e.year <= 9999 && t == #[trigger] spec_date_text(e);
    lemma_date_text_injective(d0, d);
}

} // verus!
