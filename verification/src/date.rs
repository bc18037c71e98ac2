//! Calendar dates and date intervals.
//!
//! A [`Date`] is a valid day of the proleptic Gregorian calendar. Dates are read
//! from text and written as text by the `chrono` crate; everything else is
//! computed here on year, month and day.

use crate::text::digits;
use vstd::prelude::*;

verus! {

/// The earliest year a date can have.
pub const MIN_YEAR: i32 = -262143;

/// The latest year a date can have.
pub const MAX_YEAR: i32 = 262142;

/// Whether year `y` has a 29th of February.
pub open spec fn is_leap_year(y: int) -> bool {
    y % 4 == 0 && (y % 100 != 0 || y % 400 == 0)
}

/// The number of days of month `m` in year `y`.
pub open spec fn days_in_month(y: int, m: int) -> int {
    if m == 2 {
        if is_leap_year(y) {
            29
        } else {
            28
        }
    } else if m == 4 || m == 6 || m == 9 || m == 11 {
        30
    } else {
        31
    }
}

/// A year, a month and a day as mathematical integers: the view of a [`Date`].
pub struct Ymd {
    pub year: int,
    pub month: int,
    pub day: int,
}

impl Ymd {
    /// The day exists in the calendar and its year is in range.
    pub open spec fn valid(self) -> bool {
        &&& MIN_YEAR <= self.year <= MAX_YEAR
        &&& 1 <= self.month <= 12
        &&& 1 <= self.day <= days_in_month(self.year, self.month)
    }

    /// An integer that orders days as the calendar does.
    pub open spec fn key(self) -> int {
        (self.year * 16 + self.month) * 32 + self.day
    }

    /// Whether this is the last day that a date can be.
    pub open spec fn is_last(self) -> bool {
        self.year == MAX_YEAR && self.month == 12 && self.day == 31
    }

    /// Whether this is the first day that a date can be.
    pub open spec fn is_first(self) -> bool {
        self.year == MIN_YEAR && self.month == 1 && self.day == 1
    }

    /// The day after this one.
    pub open spec fn next(self) -> Ymd {
        if self.day < days_in_month(self.year, self.month) {
            Ymd { year: self.year, month: self.month, day: self.day + 1 }
        } else if self.month < 12 {
            Ymd { year: self.year, month: self.month + 1, day: 1 }
        } else {
            Ymd { year: self.year + 1, month: 1, day: 1 }
        }
    }

    /// The day before this one.
    pub open spec fn previous(self) -> Ymd {
        if self.day > 1 {
            Ymd { year: self.year, month: self.month, day: self.day - 1 }
        } else if self.month > 1 {
            Ymd {
                year: self.year,
                month: self.month - 1,
                day: days_in_month(self.year, self.month - 1),
            }
        } else {
            Ymd { year: self.year - 1, month: 12, day: 31 }
        }
    }

    /// The year as text: four digits from year 0 to year 9999, else a sign and
    /// at least four digits.
    pub open spec fn year_text(self) -> Seq<char> {
        if 0 <= self.year <= 9999 {
            digits(self.year as nat, 4)
        } else if self.year < 0 {
            seq!['-'] + digits((-self.year) as nat, 4)
        } else {
            seq!['+'] + digits(self.year as nat, 4)
        }
    }

    /// The day as text: year, month and day joined by `-`, month and day in two digits.
    pub open spec fn text(self) -> Seq<char> {
        self.year_text() + seq!['-'] + digits(self.month as nat, 2) + seq!['-'] + digits(
            self.day as nat,
            2,
        )
    }
}

/// The date that `NaiveDate::from_str` of `chrono` reads from a text, as year,
/// month and day, or `None` where it reads none.
pub uninterp spec fn parsed_ymd(text: Seq<char>) -> Option<(i32, u32, u32)>;

/// What [`parsed_ymd`] gives, as a [`Ymd`].
pub open spec fn parsed_date(text: Seq<char>) -> Option<Ymd> {
    match parsed_ymd(text) {
        Some(t) => Some(Ymd { year: t.0 as int, month: t.1 as int, day: t.2 as int }),
        None => None,
    }
}

/// Calls `NaiveDate::from_str` of `chrono` and takes the result apart with
/// `Datelike::year`, `month` and `day`.
///
/// Believed of it: the result is a function of the text alone, and a date that
/// is read exists in the calendar.
#[verifier::external_body]
fn chrono_parse(text: &str) -> (r: Option<(i32, u32, u32)>)
    ensures
        r == parsed_ymd(text@),
        r matches Some(t) ==> (Ymd { year: t.0 as int, month: t.1 as int, day: t.2 as int }).valid(),
{
    match text.parse::<chrono::NaiveDate>() {
        Ok(d) => Some(
            (chrono::Datelike::year(&d), chrono::Datelike::month(&d), chrono::Datelike::day(&d)),
        ),
        Err(_) => None,
    }
}

/// Calls `NaiveDate::from_ymd_opt` of `chrono` and `to_string` on the date.
///
/// Believed of it: a valid day is accepted and printed as [`Ymd::text`] says,
/// and `NaiveDate::from_str` reads what was printed as the same day.
#[verifier::external_body]
fn chrono_format(year: i32, month: u32, day: u32) -> (r: String)
    requires
        (Ymd { year: year as int, month: month as int, day: day as int }).valid(),
    ensures
        r@ == (Ymd { year: year as int, month: month as int, day: day as int }).text(),
        parsed_ymd(r@) == Some((year, month, day)),
{
    chrono::NaiveDate::from_ymd_opt(year, month, day).unwrap().to_string()
}

/// A day of the calendar.
#[derive(Clone, Copy, Debug, PartialEq, Eq, Structural)]
pub struct Date {
    year: i32,
    month: u32,
    day: u32,
}

impl View for Date {
    type V = Ymd;

    closed spec fn view(&self) -> Ymd {
        Ymd { year: self.year as int, month: self.month as int, day: self.day as int }
    }
}

fn leap_year(year: i32) -> (r: bool)
    requires
        MIN_YEAR <= year <= MAX_YEAR,
    ensures
        r == is_leap_year(year as int),
{
    // 262400 is a multiple of 400 above every year's distance from zero
    let shifted: u32 = (year + 262400) as u32;
    shifted % 4 == 0 && (shifted % 100 != 0 || shifted % 400 == 0)
}

fn month_length(year: i32, month: u32) -> (r: u32)
    requires
        MIN_YEAR <= year <= MAX_YEAR,
    ensures
        r == days_in_month(year as int, month as int),
{
    if month == 2 {
        if leap_year(year) {
            29
        } else {
            28
        }
    } else if month == 4 || month == 6 || month == 9 || month == 11 {
        30
    } else {
        31
    }
}

impl Date {
    #[verifier::type_invariant]
    spec fn inv(self) -> bool {
        self@.valid()
    }

    /// The day `day` of month `month` of year `year`, if the calendar has it.
    pub fn from_ymd(year: i32, month: u32, day: u32) -> (r: Option<Date>)
        ensures
            r is Some <==> (Ymd { year: year as int, month: month as int, day: day as int }).valid(),
            r matches Some(d) ==> d@ == (Ymd {
                year: year as int,
                month: month as int,
                day: day as int,
            }),
    {
        if MIN_YEAR <= year && year <= MAX_YEAR && 1 <= month && month <= 12 && 1 <= day && day
            <= month_length(year, month) {
            Some(Date { year, month, day })
        } else {
            None
        }
    }

    /// The year.
    pub fn year(&self) -> (r: i32)
        ensures
            r == self@.year,
    {
        self.year
    }

    /// The month, from 1 to 12.
    pub fn month(&self) -> (r: u32)
        ensures
            r == self@.month,
    {
        self.month
    }

    /// The day of the month, from 1.
    pub fn day(&self) -> (r: u32)
        ensures
            r == self@.day,
    {
        self.day
    }

    /// An integer that orders dates as the calendar does.
    pub fn key(&self) -> (r: i64)
        ensures
            r == self@.key(),
            self@.valid(),
    {
        proof {
            use_type_invariant(self);
        }
        (self.year as i64 * 16 + self.month as i64) * 32 + self.day as i64
    }

    /// Whether this date is earlier than `other`.
    pub fn before(&self, other: &Date) -> (r: bool)
        ensures
            r == (self@.key() < other@.key()),
    {
        self.key() < other.key()
    }

    /// Whether the two dates are the same day.
    pub fn same_day(&self, other: &Date) -> (r: bool)
        ensures
            r == (self@ == other@),
    {
        proof {
            use_type_invariant(self);
            use_type_invariant(other);
        }
        self.year == other.year && self.month == other.month && self.day == other.day
    }

    /// The day after this one, unless this is the last day.
    pub fn succ(&self) -> (r: Option<Date>)
        ensures
            match r {
                Some(d) => !self@.is_last() && d@ == self@.next(),
                None => self@.is_last(),
            },
    {
        proof {
            use_type_invariant(self);
        }
        if self.day < month_length(self.year, self.month) {
            Some(Date { year: self.year, month: self.month, day: self.day + 1 })
        } else if self.month < 12 {
            Some(Date { year: self.year, month: self.month + 1, day: 1 })
        } else if self.year < MAX_YEAR {
            Some(Date { year: self.year + 1, month: 1, day: 1 })
        } else {
            None
        }
    }

    /// The day before this one, unless this is the first day.
    pub fn pred(&self) -> (r: Option<Date>)
        ensures
            match r {
                Some(d) => !self@.is_first() && d@ == self@.previous(),
                None => self@.is_first(),
            },
    {
        proof {
            use_type_invariant(self);
        }
        if self.day > 1 {
            Some(Date { year: self.year, month: self.month, day: self.day - 1 })
        } else if self.month > 1 {
            Some(
                Date {
                    year: self.year,
                    month: self.month - 1,
                    day: month_length(self.year, self.month - 1),
                },
            )
        } else if self.year > MIN_YEAR {
            Some(Date { year: self.year - 1, month: 12, day: 31 })
        } else {
            None
        }
    }

    /// Reads a date from text.
    pub fn parse(text: &str) -> (r: Option<Date>)
        ensures
            r is Some <==> parsed_date(text@) is Some,
            r matches Some(d) ==> Some(d@) == parsed_date(text@),
    {
        match chrono_parse(text) {
            Some((year, month, day)) => Some(Date { year, month, day }),
            None => None,
        }
    }

    /// The date as text, as `2024-01-31`. What is written here, [`Date::parse`]
    /// reads as the same day.
    pub fn to_text(&self) -> (r: String)
        ensures
            r@ == self@.text(),
            parsed_date(self@.text()) == Some(self@),
            self@.valid(),
    {
        proof {
            use_type_invariant(self);
        }
        chrono_format(self.year, self.month, self.day)
    }
}

/// Two valid days with the same key are the same day, and the key orders days
/// by year, then month, then day.
pub proof fn lemma_key_orders(a: Ymd, b: Ymd)
    requires
        a.valid(),
        b.valid(),
    ensures
        a.key() == b.key() <==> a == b,
        a.key() < b.key() <==> (a.year < b.year || (a.year == b.year && (a.month < b.month || (
        a.month == b.month && a.day < b.day)))),
{
}

/// The day after a day is a day, and the days after a day are that day and
/// those after it.
pub proof fn lemma_next_day(d: Ymd)
    requires
        d.valid(),
        !d.is_last(),
    ensures
        d.next().valid(),
        forall|x: Ymd| x.valid() ==> (d.key() < #[trigger] x.key() <==> d.next().key() <= x.key()),
{
    assert forall|x: Ymd| x.valid() implies (d.key() < #[trigger] x.key() <==> d.next().key()
        <= x.key()) by {
        lemma_key_orders(d, x);
        lemma_key_orders(d.next(), x);
    }
}

/// The day before a day is a day, and the days before a day are that day and
/// those before it.
pub proof fn lemma_previous_day(d: Ymd)
    requires
        d.valid(),
        !d.is_first(),
    ensures
        d.previous().valid(),
        forall|x: Ymd|
            x.valid() ==> (#[trigger] x.key() < d.key() <==> x.key() <= d.previous().key()),
{
    assert forall|x: Ymd| x.valid() implies (#[trigger] x.key() < d.key() <==> x.key()
        <= d.previous().key()) by {
        lemma_key_orders(d, x);
        lemma_key_orders(d.previous(), x);
    }
}

/// One end of an interval.
#[derive(Debug, PartialEq, Eq)]
pub enum Bound<B> {
    /// The end point belongs to the interval.
    Included(B),
    /// The end point does not belong to the interval.
    Excluded(B),
    /// The interval has no end on this side.
    Unbounded,
}

/// An interval: its lower and its upper end.
pub type Bounds<B> = (Bound<B>, Bound<B>);

/// The interval that holds everything.
pub fn unbounded<B>() -> (r: Bounds<B>)
    ensures
        r == (Bound::<B>::Unbounded, Bound::<B>::Unbounded),
{
    (Bound::Unbounded, Bound::Unbounded)
}

/// The view of one end of a date interval.
pub open spec fn bound_view(bound: Bound<Date>) -> Bound<Ymd> {
    match bound {
        Bound::Included(d) => Bound::Included(d@),
        Bound::Excluded(d) => Bound::Excluded(d@),
        Bound::Unbounded => Bound::Unbounded,
    }
}

/// The view of a date interval.
pub open spec fn bounds_view(bounds: Bounds<Date>) -> Bounds<Ymd> {
    (bound_view(bounds.0), bound_view(bounds.1))
}

/// Whether `day` is at or after the lower end `low`.
pub open spec fn above_lower(low: Bound<Ymd>, day: Ymd) -> bool {
    match low {
        Bound::Included(d) => d.key() <= day.key(),
        Bound::Excluded(d) => d.key() < day.key(),
        Bound::Unbounded => true,
    }
}

/// Whether `day` is at or before the upper end `high`.
pub open spec fn below_upper(high: Bound<Ymd>, day: Ymd) -> bool {
    match high {
        Bound::Included(d) => day.key() <= d.key(),
        Bound::Excluded(d) => day.key() < d.key(),
        Bound::Unbounded => true,
    }
}

/// Whether `day` lies in the interval `bounds`.
pub open spec fn in_bounds(bounds: Bounds<Ymd>, day: Ymd) -> bool {
    above_lower(bounds.0, day) && below_upper(bounds.1, day)
}

/// Whether `day` lies in the interval `bounds`.
pub fn bounds_contain(bounds: &Bounds<Date>, day: &Date) -> (r: bool)
    ensures
        r == in_bounds(bounds_view(*bounds), day@),
{
    let k = day.key();
    let low = match &bounds.0 {
        Bound::Included(d) => d.key() <= k,
        Bound::Excluded(d) => d.key() < k,
        Bound::Unbounded => true,
    };
    let high = match &bounds.1 {
        Bound::Included(d) => k <= d.key(),
        Bound::Excluded(d) => k < d.key(),
        Bound::Unbounded => true,
    };
    low && high
}

} // verus!
