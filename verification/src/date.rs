//! Calendar dates of the proleptic Gregorian calendar, held as plain
//! `(year, month, day)` values, and the date arithmetic of `chrono` that
//! the rest of the library relies on.
use vstd::prelude::*;
use chrono::Datelike;

verus! {

/// Smallest year that `chrono::NaiveDate` can represent.
pub const MIN_YEAR: i32 = -262143;

/// Largest year that `chrono::NaiveDate` can represent.
pub const MAX_YEAR: i32 = 262142;

/// A calendar date.
#[derive(Clone, Copy, Debug, PartialEq, Eq, Structural)]
pub struct Date {
    pub year: i32,
    pub month: u32,
    pub day: u32,
}

/// Leap years of the Gregorian calendar.
pub open spec fn is_leap_year(y: int) -> bool {
    (y % 4 == 0 && y % 100 != 0) || y % 400 == 0
}

/// Number of days of month `m` of year `y` (0 for a month outside 1..=12).
pub open spec fn days_in_month(y: int, m: int) -> int {
    if m == 1 || m == 3 || m == 5 || m == 7 || m == 8 || m == 10 || m == 12 {
        31
    } else if m == 4 || m == 6 || m == 9 || m == 11 {
        30
    } else if m == 2 {
        if is_leap_year(y) { 29 } else { 28 }
    } else {
        0
    }
}

/// The triple names a day that exists and that `chrono` can represent.
pub open spec fn valid_ymd(y: int, m: int, d: int) -> bool {
    &&& MIN_YEAR <= y <= MAX_YEAR
    &&& 1 <= m <= 12
    &&& 1 <= d <= days_in_month(y, m)
}

/// Number of days in the months of year `y` that precede month `m`.
pub open spec fn days_before_month(y: int, m: int) -> int {
    let base: int = if m <= 1 { 0 }
        else if m == 2 { 31 }
        else if m == 3 { 59 }
        else if m == 4 { 90 }
        else if m == 5 { 120 }
        else if m == 6 { 151 }
        else if m == 7 { 181 }
        else if m == 8 { 212 }
        else if m == 9 { 243 }
        else if m == 10 { 273 }
        else if m == 11 { 304 }
        else { 334 };
    if m > 2 && is_leap_year(y) { base + 1 } else { base }
}

/// Number of days since the first of January of year 1 (that day being 1),
/// in the proleptic Gregorian calendar.
pub open spec fn spec_days_from_ce(y: int, m: int, d: int) -> int {
    let p = y - 1;
    365 * p + p / 4 - p / 100 + p / 400 + days_before_month(y, m) + d
}

impl Date {
    /// The date exists in the calendar and is within `chrono`'s range.
    pub open spec fn wf(self) -> bool {
        valid_ymd(self.year as int, self.month as int, self.day as int)
    }

    /// Day count since the common era, as `chrono` counts it.
    pub open spec fn days(self) -> int {
        spec_days_from_ce(self.year as int, self.month as int, self.day as int)
    }

    /// Chronologically strictly before.
    pub open spec fn spec_lt(self, other: Date) -> bool {
        ||| self.year < other.year
        ||| self.year == other.year && self.month < other.month
        ||| self.year == other.year && self.month == other.month && self.day < other.day
    }

    /// Chronologically before or on the same day.
    pub open spec fn spec_le(self, other: Date) -> bool {
        !other.spec_lt(self)
    }

    /// Builds the date `year-month-day`, or `None` where no such date exists.
    pub fn from_ymd(year: i32, month: u32, day: u32) -> (r: Option<Date>)
        ensures
            r == (if valid_ymd(year as int, month as int, day as int) {
                Some(Date { year, month, day })
            } else {
                None::<Date>
            }),
    {
        chrono_from_ymd(year, month, day)
    }

    /// Strictly before, chronologically.
    pub fn is_before(&self, other: &Date) -> (r: bool)
        ensures
            r == self.spec_lt(*other),
    {
        self.year < other.year || (self.year == other.year && (self.month < other.month || (
        self.month == other.month && self.day < other.day)))
    }

    /// Before or on the same day, chronologically.
    pub fn is_before_or_on(&self, other: &Date) -> (r: bool)
        ensures
            r == self.spec_le(*other),
    {
        !other.is_before(self)
    }

    /// Same day.
    pub fn same_day(&self, other: &Date) -> (r: bool)
        ensures
            r == (*self == *other),
    {
        self.year == other.year && self.month == other.month && self.day == other.day
    }

    /// Number of days since the common era (1 for the first of January of year 1).
    pub fn days_from_ce(&self) -> (r: i32)
        requires
            self.wf(),
        ensures
            r as int == self.days(),
    {
        chrono_days_from_ce(self)
    }

    /// The date `n` days later, or `None` where it falls outside the calendar's range.
    pub fn checked_add_days(&self, n: u64) -> (r: Option<Date>)
        requires
            self.wf(),
        ensures
            r matches Some(d) ==> d.wf() && d.days() == self.days() + n,
            (n <= i32::MAX && exists|d: Date| d.wf() && d.days() == self.days() + n) ==> r is Some,
    {
        chrono_checked_add_days(self, n)
    }
}

/// Days of the months before `m`, plus those of month `m`, are the days
/// before month `m + 1`.
pub proof fn lemma_days_before_next_month(y: int, m: int)
    requires
        1 <= m < 12,
    ensures
        days_before_month(y, m + 1) == days_before_month(y, m) + days_in_month(y, m),
{
}

/// The first of January of year `y + 1` comes `365` or `366` days after that
/// of year `y`.
pub proof fn lemma_year_length(y: int)
    ensures
        spec_days_from_ce(y + 1, 1, 1) == spec_days_from_ce(y, 1, 1) + (if is_leap_year(y) { 366int } else { 365 }),
{
    let p = y - 1;
    lemma_quotient_step(p, 4);
    lemma_quotient_step(p, 100);
    lemma_quotient_step(p, 400);
    assert(days_before_month(y, 1) == 0 && days_before_month(y + 1, 1) == 0);
}

/// Going from `p` to `p + 1` raises the quotient by `k` by one exactly where
/// `p + 1` is a multiple of `k`.
proof fn lemma_quotient_step(p: int, k: int)
    requires
        k > 0,
    ensures
        (p + 1) / k == p / k + (if (p + 1) % k == 0 { 1int } else { 0 }),
{
    let q = p / k;
    let r = p % k;
    vstd::arithmetic::div_mod::lemma_fundamental_div_mod(p, k);
    vstd::arithmetic::div_mod::lemma_mod_bound(p, k);
    assert(p == q * k + r) by (nonlinear_arith)
        requires
            p == k * q + r,
    ;
    if r + 1 < k {
        vstd::arithmetic::div_mod::lemma_fundamental_div_mod_converse(p + 1, k, q, r + 1);
    } else {
        assert(p + 1 == (q + 1) * k + 0) by (nonlinear_arith)
            requires
                p == q * k + r,
                r + 1 == k,
        ;
        vstd::arithmetic::div_mod::lemma_fundamental_div_mod_converse(p + 1, k, q + 1, 0);
    }
}

/// The day count of a valid date lies well within an `i32`.
pub proof fn lemma_days_bounds(d: Date)
    requires
        d.wf(),
    ensures
        -100_000_000 < d.days() < 100_000_000,
{
    let p = d.year as int - 1;
    assert(-262144 <= p <= 262141);
    assert(-65536 <= p / 4 <= 65536);
    assert(-2622 <= p / 100 <= 2622);
    assert(-656 <= p / 400 <= 656);
    assert(0 <= days_before_month(d.year as int, d.month as int) <= 335);
}

/// Within a year, the day count grows with the date.
proof fn lemma_days_within_year(a: Date, b: Date)
    requires
        a.wf(),
        b.wf(),
        a.year == b.year,
        a.spec_le(b),
    ensures
        a.days() <= b.days(),
        a.spec_lt(b) ==> a.days() < b.days(),
    decreases b.month - a.month,
{
    if a.month < b.month {
        let c = Date { year: a.year, month: (a.month + 1) as u32, day: 1 };
        lemma_days_before_next_month(a.year as int, a.month as int);
        lemma_days_within_year(c, b);
    }
}

/// The day count orders valid dates as the calendar does.
pub proof fn lemma_days_monotonic(a: Date, b: Date)
    requires
        a.wf(),
        b.wf(),
        a.spec_le(b),
    ensures
        a.days() <= b.days(),
        a.spec_lt(b) ==> a.days() < b.days(),
    decreases b.year - a.year,
{
    if a.year == b.year {
        lemma_days_within_year(a, b);
    } else {
        let end = Date { year: a.year, month: 12, day: 31 };
        let next = Date { year: (a.year + 1) as i32, month: 1, day: 1 };
        let first = Date { year: a.year, month: 1, day: 1 };
        lemma_days_within_year(a, end);
        lemma_year_length(a.year as int);
        assert(end.days() < next.days());
        lemma_days_monotonic(next, b);
    }
}

/// The first and the last day of month `month` of year `year`, or `None`
/// where the month does not exist or its end is out of `chrono`'s range.
pub fn first_and_last_day_of_month(year: i32, month: u32) -> (r: Option<(Date, Date)>)
    ensures
        r == (if valid_ymd(year as int, month as int, 1) && !(year == MAX_YEAR && month == 12) {
            Some((Date { year, month, day: 1 }, Date { year, month, day: days_in_month(year as int, month as int) as u32 }))
        } else {
            None::<(Date, Date)>
        }),
{
    match chrono_from_ymd(year, month, 1) {
        None => None,
        Some(first) => match chrono_last_day_of_month(&first) {
            None => None,
            Some(last) => Some((first, last)),
        },
    }
}

/// `chrono::NaiveDate::from_ymd_opt`: returns the date where the year is in
/// `chrono`'s range and the month and day exist, `None` otherwise.
#[verifier::external_body]
fn chrono_from_ymd(year: i32, month: u32, day: u32) -> (r: Option<Date>)
    ensures
        r == (if valid_ymd(year as int, month as int, day as int) {
            Some(Date { year, month, day })
        } else {
            None::<Date>
        }),
{
    match chrono::NaiveDate::from_ymd_opt(year, month, day) {
        Some(d) => Some(Date { year: d.year(), month: d.month(), day: d.day() }),
        None => None,
    }
}

/// `chrono::NaiveDate::checked_add_months` by one month followed by
/// `pred_opt`, from the first day of a month: the last day of that month,
/// `None` where the next month is beyond `chrono`'s range.
#[verifier::external_body]
fn chrono_last_day_of_month(first: &Date) -> (r: Option<Date>)
    requires
        first.wf(),
        first.day == 1,
    ensures
        r == (if first.year == MAX_YEAR && first.month == 12 {
            None::<Date>
        } else {
            Some(Date { year: first.year, month: first.month, day: days_in_month(first.year as int, first.month as int) as u32 })
        }),
{
    let start = chrono::NaiveDate::from_ymd_opt(first.year, first.month, first.day).unwrap();
    match start.checked_add_months(chrono::Months::new(1)).and_then(|d| d.pred_opt()) {
        Some(d) => Some(Date { year: d.year(), month: d.month(), day: d.day() }),
        None => None,
    }
}

/// `chrono::Datelike::num_days_from_ce`: the number of days since the first
/// of January of year 1 (which is day 1) in the proleptic Gregorian calendar.
#[verifier::external_body]
fn chrono_days_from_ce(d: &Date) -> (r: i32)
    requires
        d.wf(),
    ensures
        r as int == d.days(),
{
    chrono::NaiveDate::from_ymd_opt(d.year, d.month, d.day).unwrap().num_days_from_ce()
}

/// `chrono::NaiveDate::checked_add_days`: the date `n` days later; `None`
/// where `n` exceeds `i32::MAX` or the result is out of range.
#[verifier::external_body]
fn chrono_checked_add_days(d: &Date, n: u64) -> (r: Option<Date>)
    requires
        d.wf(),
    ensures
        r matches Some(e) ==> e.wf() && e.days() == d.days() + n,
        (n <= i32::MAX && exists|e: Date| e.wf() && e.days() == d.days() + n) ==> r is Some,
{
    let start = chrono::NaiveDate::from_ymd_opt(d.year, d.month, d.day).unwrap();
    match start.checked_add_days(chrono::Days::new(n)) {
        Some(e) => Some(Date { year: e.year(), month: e.month(), day: e.day() }),
        None => None,
    }
}

/// What `chrono::NaiveDate::parse_from_str` gives for a text and a format:
/// the date that the text writes, or the text of the `ParseError`.
pub uninterp spec fn chrono_parsed_date(text: Seq<char>, format: Seq<char>) -> Result<Date, Seq<char>>;

/// The valid date of a year from 0 to 9999 whose text (see
/// `spec_date_text`) is `t`, if there is one.
pub open spec fn written_date(t: Seq<char>) -> Option<Date> {
    if exists|d: Date| d.wf() && 0 <= d.year <= 9999 && t == #[trigger] spec_date_text(d) {
        Some(choose|d: Date| d.wf() && 0 <= d.year <= 9999 && t == #[trigger] spec_date_text(d))
    } else {
        None
    }
}

/// `chrono::NaiveDate::parse_from_str`: the date that the text writes in
/// the format, or the error's text; a date that comes back is a valid one.
/// In the format `%F`, the text that chrono writes for a valid date of a
/// year from 0 to 9999 (`YYYY-MM-DD`) reads back as that date.
#[verifier::external_body]
pub(crate) fn parse_date(text: &str, format: &str) -> (r: Result<Date, String>)
    ensures
        crate::text::result_is(r, chrono_parsed_date(text@, format@)),
        r matches Ok(d) ==> d.wf(),
        r is Err ==> format@ != "%F"@ || written_date(text@) is None,
        r matches Ok(d) ==> format@ != "%F"@ || written_date(text@) is None || written_date(text@) == Some(d),
{
    match chrono::NaiveDate::parse_from_str(text, format) {
        Ok(d) => Ok(Date { year: d.year(), month: d.month(), day: d.day() }),
        Err(e) => Err(e.to_string()),
    }
}

/// How `chrono` writes a year: with at least four digits, and with a
/// sign where it is outside `0..=9999`.
pub open spec fn spec_year_text(year: i32) -> Seq<char> {
    if 0 <= year <= 9999 {
        crate::text::padded_int(year as int, 4)
    } else if year > 9999 {
        seq!['+'] + crate::text::padded_int(year as int, 4)
    } else {
        crate::text::padded_int(year as int, 5)
    }
}

/// How `chrono` displays a date (also its format `%F`): `YYYY-MM-DD`, the
/// year written as by `spec_year_text`.
pub open spec fn spec_date_text(d: Date) -> Seq<char> {
    spec_year_text(d.year) + seq!['-'] + crate::text::padded_int(d.month as int, 2) + seq!['-'] + crate::text::padded_int(d.day as int, 2)
}

/// The date in the format `%Y-%m` of `chrono`: its year and month.
pub open spec fn spec_year_month_text(d: Date) -> Seq<char> {
    spec_year_text(d.year) + seq!['-'] + crate::text::padded_int(d.month as int, 2)
}

/// The date as `chrono` displays it.
pub fn date_text(d: &Date) -> (r: String)
    ensures
        r@ == spec_date_text(*d),
{
    let mut chars: Vec<char> = Vec::new();
    if d.year > 9999 {
        chars.push('+');
    }
    let year = if 0 <= d.year && d.year <= 9999 || d.year > 9999 {
        crate::text::format_padded(d.year as i64, 4)
    } else {
        crate::text::format_padded(d.year as i64, 5)
    };
    let month = crate::text::format_padded(d.month as i64, 2);
    let day = crate::text::format_padded(d.day as i64, 2);
    let ghost start = chars@;
    append_chars(&mut chars, &year);
    chars.push('-');
    append_chars(&mut chars, &month);
    chars.push('-');
    append_chars(&mut chars, &day);
    assert(chars@ =~= spec_date_text(*d));
    crate::text::string_of(&chars)
}

/// The year and month of the date, in the format `%Y-%m`.
pub fn year_month_text(d: &Date) -> (r: String)
    ensures
        r@ == spec_year_month_text(*d),
{
    let mut chars: Vec<char> = Vec::new();
    if d.year > 9999 {
        chars.push('+');
    }
    let year = if 0 <= d.year && d.year <= 9999 || d.year > 9999 {
        crate::text::format_padded(d.year as i64, 4)
    } else {
        crate::text::format_padded(d.year as i64, 5)
    };
    let month = crate::text::format_padded(d.month as i64, 2);
    append_chars(&mut chars, &year);
    chars.push('-');
    append_chars(&mut chars, &month);
    assert(chars@ =~= spec_year_month_text(*d));
    crate::text::string_of(&chars)
}

fn append_chars(v: &mut Vec<char>, w: &Vec<char>)
    ensures
        final(v)@ == old(v)@ + w@,
{
    let ghost start = v@;
    let mut i: usize = 0;
    while i < w.len()
        invariant
            i <= w@.len(),
            v@ == start + w@.subrange(0, i as int),
        decreases w.len() - i,
    {
        v.push(w[i]);
        i = i + 1;
        assert(v@ =~= start + w@.subrange(0, i as int));
    }
    assert(w@.subrange(0, w@.len() as int) =~= w@);
}

} // verus!
