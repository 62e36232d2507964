//! Calendar dates as plain year/month/day values, with the proleptic
//! Gregorian rules (leap years, month lengths) stated as spec functions and
//! the day/month arithmetic the reports need proved against them.
use vstd::prelude::*;

verus! {

/// A calendar date. Valid dates (see [`Date::is_valid`]) have a year between
/// 1 and 9999, a month between 1 and 12, and a day that exists in that month.
#[derive(Clone, Copy, Debug, PartialEq, Eq, Structural)]
pub struct Date {
    pub year: i32,
    pub month: i32,
    pub day: i32,
}

pub open spec fn spec_is_leap_year(year: int) -> bool {
    (year % 4 == 0 && year % 100 != 0) || year % 400 == 0
}

pub open spec fn spec_days_in_month(year: int, month: int) -> int {
    if month == 2 {
        if spec_is_leap_year(year) {
            29
        } else {
            28
        }
    } else if month == 4 || month == 6 || month == 9 || month == 11 {
        30
    } else {
        31
    }
}

/// Lexicographic order on (year, month, day): the calendar order for valid dates.
pub open spec fn date_le(a: Date, b: Date) -> bool {
    a.year < b.year || (a.year == b.year && (a.month < b.month || (a.month == b.month
        && a.day <= b.day)))
}

pub open spec fn date_lt(a: Date, b: Date) -> bool {
    date_le(a, b) && a != b
}

impl Date {
    pub open spec fn is_valid(self) -> bool {
        1 <= self.year <= 9999 && 1 <= self.month <= 12 && 1 <= self.day
            && self.day <= spec_days_in_month(self.year as int, self.month as int)
    }

    pub fn new(year: i32, month: i32, day: i32) -> (r: Option<Date>)
        ensures
            match r {
                Some(d) => d == (Date { year, month, day }) && d.is_valid(),
                None => !(Date { year, month, day }).is_valid(),
            },
    {
        let d = Date { year, month, day };
        if 1 <= year && year <= 9999 && 1 <= month && month <= 12 && 1 <= day && day
            <= days_in_month(year, month) {
            Some(d)
        } else {
            None
        }
    }

    /// `self <= other` in calendar order.
    pub fn le(&self, other: &Date) -> (r: bool)
        ensures
            r == date_le(*self, *other),
    {
        self.year < other.year || (self.year == other.year && (self.month < other.month
            || (self.month == other.month && self.day <= other.day)))
    }

    /// `self < other` in calendar order.
    pub fn lt(&self, other: &Date) -> (r: bool)
        ensures
            r == date_lt(*self, *other),
    {
        other.le(self) == false
    }
}

pub fn is_leap_year(year: i32) -> (r: bool)
    requires
        year >= 1,
    ensures
        r == spec_is_leap_year(year as int),
{
    (year % 4 == 0 && year % 100 != 0) || year % 400 == 0
}

pub fn days_in_month(year: i32, month: i32) -> (r: i32)
    requires
        year >= 1,
    ensures
        r == spec_days_in_month(year as int, month as int),
{
    if month == 2 {
        if is_leap_year(year) {
            29
        } else {
            28
        }
    } else if month == 4 || month == 6 || month == 9 || month == 11 {
        30
    } else {
        31
    }
}

/// Totality of the calendar order.
pub proof fn lemma_date_le_total(a: Date, b: Date)
    ensures
        date_le(a, b) || date_le(b, a),
        date_le(a, b) && date_le(b, a) ==> a == b,
{
}

/// The day after `d`: one day later, rolling over month and year ends.
pub open spec fn spec_next_day(d: Date) -> Date {
    if d.day < spec_days_in_month(d.year as int, d.month as int) {
        Date { year: d.year, month: d.month, day: (d.day + 1) as i32 }
    } else if d.month < 12 {
        Date { year: d.year, month: (d.month + 1) as i32, day: 1 }
    } else {
        Date { year: (d.year + 1) as i32, month: 1, day: 1 }
    }
}

/// The day before `d`.
pub open spec fn spec_prev_day(d: Date) -> Date {
    if d.day > 1 {
        Date { year: d.year, month: d.month, day: (d.day - 1) as i32 }
    } else if d.month > 1 {
        Date {
            year: d.year,
            month: (d.month - 1) as i32,
            day: spec_days_in_month(d.year as int, d.month - 1) as i32,
        }
    } else {
        Date { year: (d.year - 1) as i32, month: 12, day: 31 }
    }
}

/// `d` moved `k` whole months later, the day of month clamped to the last
/// day of the target month when the literal day does not exist there.
pub open spec fn spec_add_months(d: Date, k: int) -> Date {
    let t = d.month - 1 + k;
    let year = d.year + t / 12;
    let month = t % 12 + 1;
    let day = if d.day <= spec_days_in_month(year, month) {
        d.day as int
    } else {
        spec_days_in_month(year, month)
    };
    Date { year: year as i32, month: month as i32, day: day as i32 }
}

impl Date {
    pub fn next_day(&self) -> (r: Date)
        requires
            self.is_valid(),
            !(self.year == 9999 && self.month == 12 && self.day == 31),
        ensures
            r == spec_next_day(*self),
            r.is_valid(),
            date_lt(*self, r),
    {
        if self.day < days_in_month(self.year, self.month) {
            Date { year: self.year, month: self.month, day: self.day + 1 }
        } else if self.month < 12 {
            Date { year: self.year, month: self.month + 1, day: 1 }
        } else {
            Date { year: self.year + 1, month: 1, day: 1 }
        }
    }

    pub fn prev_day(&self) -> (r: Date)
        requires
            self.is_valid(),
            !(self.year == 1 && self.month == 1 && self.day == 1),
        ensures
            r == spec_prev_day(*self),
            r.is_valid(),
            date_lt(r, *self),
    {
        if self.day > 1 {
            Date { year: self.year, month: self.month, day: self.day - 1 }
        } else if self.month > 1 {
            Date { year: self.year, month: self.month - 1, day: days_in_month(self.year, self.month - 1) }
        } else {
            Date { year: self.year - 1, month: 12, day: 31 }
        }
    }

    pub fn add_months(&self, k: u32) -> (r: Date)
        requires
            self.is_valid(),
            k <= 1_000_000,
            self.year + (self.month - 1 + k) / 12 <= 9999,
        ensures
            r == spec_add_months(*self, k as int),
            r.is_valid(),
    {
        let t: u32 = (self.month - 1) as u32 + k;
        let year: i32 = self.year + (t / 12) as i32;
        let month: i32 = (t % 12) as i32 + 1;
        let dim = days_in_month(year, month);
        let day: i32 = if self.day <= dim {
            self.day
        } else {
            dim
        };
        Date { year, month, day }
    }
}

/// Advancing by months adds exactly that many to the date's month index
/// `12 * year + month`, whatever day clamping does.
pub proof fn lemma_add_months_linear(d: Date, k: int)
    requires
        d.is_valid(),
        0 <= k,
        d.year + (d.month - 1 + k) / 12 <= 9999,
    ensures
        ({
            let r = spec_add_months(d, k);
            &&& 12 * r.year + r.month == 12 * d.year + d.month + k
            &&& r.is_valid()
            &&& r.day <= d.day
        }),
{
    let t = d.month - 1 + k;
    vstd::arithmetic::div_mod::lemma_fundamental_div_mod(t, 12);
    vstd::arithmetic::div_mod::lemma_mod_division_less_than_divisor(t, 12);
    vstd::arithmetic::div_mod::lemma_div_pos_is_pos(t, 12);
}

/// The i-th calendar day counting from `start` (day 0 is `start` itself).
pub open spec fn spec_day(start: Date, i: int) -> Date
    decreases i,
{
    if i <= 0 {
        start
    } else {
        spec_next_day(spec_day(start, i - 1))
    }
}

/// The next day is strictly later.
pub proof fn lemma_next_day_gt(d: Date)
    requires
        d.is_valid(),
    ensures
        date_lt(d, spec_next_day(d)),
{
}

/// Any valid day but the last supported one has a valid next day.
pub proof fn lemma_next_day_valid(d: Date)
    requires
        d.is_valid(),
        !(d.year == 9999 && d.month == 12 && d.day == 31),
    ensures
        spec_next_day(d).is_valid(),
        date_lt(d, spec_next_day(d)),
{
}

/// Counting days from `start` and counting from its next day line up.
pub proof fn lemma_spec_day_shift(start: Date, j: int)
    requires
        j >= 1,
    ensures
        spec_day(start, j) == spec_day(spec_next_day(start), j - 1),
    decreases j,
{
    if j == 1 {
        assert(spec_day(start, 0) == start);
        assert(spec_day(spec_next_day(start), 0) == spec_next_day(start));
        assert(spec_day(start, 1) == spec_next_day(spec_day(start, 0)));
    } else {
        lemma_spec_day_shift(start, j - 1);
        assert(spec_day(start, j) == spec_next_day(spec_day(start, j - 1)));
        assert(spec_day(spec_next_day(start), j - 1) == spec_next_day(
            spec_day(spec_next_day(start), j - 2),
        ));
    }
}

/// Any two ordered valid dates span a whole number of days: `to` is the
/// `n`-th day counted from `from`, every day between them valid.
pub proof fn lemma_day_span(from: Date, to: Date) -> (n: int)
    requires
        from.is_valid(),
        to.is_valid(),
        date_le(from, to),
    ensures
        1 <= n,
        spec_day(from, n - 1) == to,
        forall|k: int| 0 <= k < n ==> (#[trigger] spec_day(from, k)).is_valid(),
    decreases (to.year + 1 - from.year) * 400 + (12 - from.month) * 31 + (31 - from.day),
{
    if from == to {
        assert(spec_day(from, 0) == from);
        1
    } else {
        lemma_date_le_total(from, to);
        lemma_next_day_valid(from);
        let next = spec_next_day(from);
        lemma_next_day_is_successor(from, to);
        let m = lemma_day_span(next, to);
        lemma_spec_day_shift(from, m);
        assert forall|k: int| 0 <= k < m + 1 implies (#[trigger] spec_day(from, k)).is_valid() by {
            if k >= 1 {
                lemma_spec_day_shift(from, k);
            }
        }
        m + 1
    }
}

/// Every valid date strictly before `x` is at or before the day before `x`.
pub proof fn lemma_prev_day_is_predecessor(d: Date, x: Date)
    requires
        d.is_valid(),
        x.is_valid(),
        !(x.year == 1 && x.month == 1 && x.day == 1),
        date_lt(d, x),
    ensures
        date_le(d, spec_prev_day(x)),
{
    let p = spec_prev_day(x);
    assert(p.is_valid());
    assert(spec_next_day(p) == x);
    lemma_date_le_total(d, p);
    if date_lt(p, d) {
        lemma_next_day_is_successor(p, d);
        lemma_date_le_total(d, x);
    }
}

/// The calendar order has no date strictly between a valid date and the next
/// day: every valid date after `d` is at or after `spec_next_day(d)`.
pub proof fn lemma_next_day_is_successor(d: Date, e: Date)
    requires
        d.is_valid(),
        e.is_valid(),
        date_lt(d, e),
    ensures
        date_le(spec_next_day(d), e),
{
}

} // verus!
