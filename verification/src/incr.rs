//! The quarterly incremental engine: one line per quarter window, summing
//! the value realized by the vesting events that fall inside the window,
//! each event valued at the price in force on its own date.
use vstd::prelude::*;

use crate::date::{
    date_le, date_lt, spec_add_months, spec_days_in_month, spec_prev_day, Date,
};
use crate::error::EquityError;
use crate::options::{OptionGrant, OptionGrantVestingEvent};
use crate::psp::{spec_value_on, PreferredStockPrice, PreferredStockPriceValuation};
use crate::rsu::{sum_event_numbers, RestrictedStockUnitGrant, RestrictedStockUnitVestingEvent};
use crate::sums::{option_event_mass, rsu_total_mass, sum_option_event_numbers};
use crate::total::{inputs_wf, is_earliest_commencement, is_latest_final_event};

verus! {

/// Start of the calendar quarter containing `d`: Jan 1 / Apr 1 / Jul 1 /
/// Oct 1 of the same year.
pub open spec fn spec_start_of_quarter(d: Date) -> Date {
    Date { year: d.year, month: (((d.month - 1) / 3) * 3 + 1) as i32, day: 1 }
}

/// Start of the skewed quarter containing `d`: Dec 17 / Mar 17 / Jun 17 /
/// Sep 17, with day 16 as the closing boundary.
pub open spec fn spec_start_of_skewed_quarter(d: Date) -> Date {
    if d.month <= 2 || (d.month == 3 && d.day <= 16) {
        Date { year: (d.year - 1) as i32, month: 12, day: 17 }
    } else if d.month <= 5 || (d.month == 6 && d.day <= 16) {
        Date { year: d.year, month: 3, day: 17 }
    } else if d.month <= 8 || (d.month == 9 && d.day <= 16) {
        Date { year: d.year, month: 6, day: 17 }
    } else if d.month <= 11 || (d.month == 12 && d.day <= 16) {
        Date { year: d.year, month: 9, day: 17 }
    } else {
        Date { year: d.year, month: 12, day: 17 }
    }
}

/// The two quarter-boundary policies.
#[derive(Clone, Copy, Debug, Default, PartialEq, Eq, Structural)]
pub enum QuarterType {
    #[default]
    Calendar,
    Skewed,
}

/// `d` is a quarter-start date of the given policy.
pub open spec fn quarter_aligned(qt: QuarterType, d: Date) -> bool {
    match qt {
        QuarterType::Calendar => d.day == 1 && (d.month == 1 || d.month == 4 || d.month == 7
            || d.month == 10),
        QuarterType::Skewed => d.day == 17 && (d.month == 3 || d.month == 6 || d.month == 9
            || d.month == 12),
    }
}

impl QuarterType {
    pub open spec fn spec_start_of_quarter(self, d: Date) -> Date {
        match self {
            QuarterType::Calendar => spec_start_of_quarter(d),
            QuarterType::Skewed => spec_start_of_skewed_quarter(d),
        }
    }

    /// The start of the quarter window containing `date`, under this policy.
    pub fn start_of_quarter(&self, date: &Date) -> (r: Date)
        requires
            date.is_valid(),
            2 <= date.year <= 9998,
        ensures
            r == self.spec_start_of_quarter(*date),
            r.is_valid(),
            r.year >= 1,
            r.year <= date.year,
            quarter_aligned(*self, r),
            date_le(r, *date),
            date_lt(*date, spec_add_months(r, 3)),
    {
        let r = match self {
            QuarterType::Calendar => start_of_quarter(date),
            QuarterType::Skewed => start_of_skewed_quarter(date),
        };
        proof {
            crate::date::lemma_add_months_linear(r, 3);
        }
        r
    }
}

/// Start of the calendar quarter containing `date`.
pub fn start_of_quarter(date: &Date) -> (r: Date)
    requires
        date.is_valid(),
        date.year <= 9998,
    ensures
        r == spec_start_of_quarter(*date),
        r.is_valid(),
        r.year == date.year,
        quarter_aligned(QuarterType::Calendar, r),
        date_le(r, *date),
        date_lt(*date, spec_add_months(r, 3)),
{
    let m0: u32 = (date.month - 1) as u32;
    let quarter: u32 = m0 / 3;
    let first_month: i32 = (quarter * 3) as i32 + 1;
    let r = Date { year: date.year, month: first_month, day: 1 };
    proof {
        crate::date::lemma_add_months_linear(r, 3);
    }
    r
}

/// Start of the skewed quarter containing `date`.
pub fn start_of_skewed_quarter(date: &Date) -> (r: Date)
    requires
        date.is_valid(),
        2 <= date.year <= 9998,
    ensures
        r == spec_start_of_skewed_quarter(*date),
        r.is_valid(),
        r.year >= 1,
        r.year <= date.year,
        quarter_aligned(QuarterType::Skewed, r),
        date_le(r, *date),
        date_lt(*date, spec_add_months(r, 3)),
{
    let r = if date.month == 1 || date.month == 2 || (date.month == 3 && date.day <= 16) {
        Date { year: date.year - 1, month: 12, day: 17 }
    } else if date.month == 3 || date.month == 4 || date.month == 5 || (date.month == 6 && date.day
        <= 16) {
        Date { year: date.year, month: 3, day: 17 }
    } else if date.month == 6 || date.month == 7 || date.month == 8 || (date.month == 9 && date.day
        <= 16) {
        Date { year: date.year, month: 6, day: 17 }
    } else if date.month == 9 || date.month == 10 || date.month == 11 || (date.month == 12
        && date.day <= 16) {
        Date { year: date.year, month: 9, day: 17 }
    } else {
        Date { year: date.year, month: 12, day: 17 }
    };
    proof {
        crate::date::lemma_add_months_linear(r, 3);
    }
    r
}

/// The i-th quarter window start: `start_q` advanced by `3 * i` months.
pub open spec fn spec_nth_quarter(start_q: Date, i: int) -> Date
    decreases i,
{
    if i <= 0 {
        start_q
    } else {
        spec_add_months(spec_nth_quarter(start_q, i - 1), 3)
    }
}

/// The price in force on `d`, as an integer (meaningful when a price exists).
pub open spec fn spec_price_at(psp: Seq<PreferredStockPriceValuation>, d: Date) -> int {
    (spec_value_on(psp, d)->0) as int
}

/// Value realized by RSU events dated within `[lo, hi]`, each valued at the
/// price in force on its own date.
pub open spec fn rsu_event_value_between(
    events: Seq<RestrictedStockUnitVestingEvent>,
    lo: Date,
    hi: Date,
    psp: Seq<PreferredStockPriceValuation>,
) -> int
    decreases events.len(),
{
    if events.len() == 0 {
        0
    } else {
        rsu_event_value_between(events.drop_last(), lo, hi, psp) + if date_le(
            lo,
            events.last().date,
        ) && date_le(events.last().date, hi) {
            events.last().number * spec_price_at(psp, events.last().date)
        } else {
            0
        }
    }
}

/// Signed value realized by option events dated within `[lo, hi]`: units
/// times the spread between the price on the event's date and the strike.
pub open spec fn option_event_value_between(
    events: Seq<OptionGrantVestingEvent>,
    lo: Date,
    hi: Date,
    psp: Seq<PreferredStockPriceValuation>,
    exercise_price: int,
) -> int
    decreases events.len(),
{
    if events.len() == 0 {
        0
    } else {
        option_event_value_between(events.drop_last(), lo, hi, psp, exercise_price) + if date_le(
            lo,
            events.last().date,
        ) && date_le(events.last().date, hi) {
            events.last().number * (spec_price_at(psp, events.last().date) - exercise_price)
        } else {
            0
        }
    }
}

/// Every event dated within `[lo, hi]` has a price in force on its date.
pub open spec fn rsu_events_priced(
    events: Seq<RestrictedStockUnitVestingEvent>,
    lo: Date,
    hi: Date,
    psp: Seq<PreferredStockPriceValuation>,
) -> bool {
    forall|i: int|
        0 <= i < events.len() && date_le(lo, (#[trigger] events[i]).date) && date_le(
            events[i].date,
            hi,
        ) ==> spec_value_on(psp, events[i].date) is Some
}

pub open spec fn option_events_priced(
    events: Seq<OptionGrantVestingEvent>,
    lo: Date,
    hi: Date,
    psp: Seq<PreferredStockPriceValuation>,
) -> bool {
    forall|i: int|
        0 <= i < events.len() && date_le(lo, (#[trigger] events[i]).date) && date_le(
            events[i].date,
            hi,
        ) ==> spec_value_on(psp, events[i].date) is Some
}

/// Value realized within `[lo, hi]` across all option grants.
pub open spec fn option_grants_event_value_between(
    grants: Seq<OptionGrant>,
    lo: Date,
    hi: Date,
    psp: Seq<PreferredStockPriceValuation>,
) -> int
    decreases grants.len(),
{
    if grants.len() == 0 {
        0
    } else {
        option_grants_event_value_between(grants.drop_last(), lo, hi, psp)
            + option_event_value_between(
            grants.last().vesting_schedule.events@,
            lo,
            hi,
            psp,
            grants.last().value.exercise_price as int,
        )
    }
}

/// Value realized within `[lo, hi]` across all RSU grants.
pub open spec fn rsu_grants_event_value_between(
    grants: Seq<RestrictedStockUnitGrant>,
    lo: Date,
    hi: Date,
    psp: Seq<PreferredStockPriceValuation>,
) -> int
    decreases grants.len(),
{
    if grants.len() == 0 {
        0
    } else {
        rsu_grants_event_value_between(grants.drop_last(), lo, hi, psp) + rsu_event_value_between(
            grants.last().vesting_schedule.events@,
            lo,
            hi,
            psp,
        )
    }
}

/// `d` is the date of some vesting event of some grant.
pub open spec fn event_dated(
    d: Date,
    opts: Seq<OptionGrant>,
    rsus: Seq<RestrictedStockUnitGrant>,
) -> bool {
    ||| exists|g: int, i: int|
        0 <= g < opts.len() && 0 <= i < opts[g].vesting_schedule.events@.len() && (
        #[trigger] opts[g].vesting_schedule.events@[i]).date == d
    ||| exists|g: int, i: int|
        0 <= g < rsus.len() && 0 <= i < rsus[g].vesting_schedule.events@.len() && (
        #[trigger] rsus[g].vesting_schedule.events@[i]).date == d
}

/// Realized value of RSU events is bounded by their unit total times the
/// largest expressible price.
pub proof fn lemma_rsu_event_value_bounds(
    events: Seq<RestrictedStockUnitVestingEvent>,
    lo: Date,
    hi: Date,
    psp: Seq<PreferredStockPriceValuation>,
)
    requires
        forall|i: int| 0 <= i < events.len() ==> (#[trigger] events[i]).number >= 0,
    ensures
        -sum_event_numbers(events) * 0x8000_0000 <= rsu_event_value_between(events, lo, hi, psp)
            <= sum_event_numbers(events) * 0x8000_0000,
    decreases events.len(),
{
    if events.len() > 0 {
        lemma_rsu_event_value_bounds(events.drop_last(), lo, hi, psp);
        let n = events.last().number as int;
        let p = spec_price_at(psp, events.last().date);
        let s = sum_event_numbers(events.drop_last());
        assert(-n * 0x8000_0000 <= n * p <= n * 0x8000_0000 && s * 0x8000_0000 + n * 0x8000_0000
            == (s + n) * 0x8000_0000 && -s * 0x8000_0000 - n * 0x8000_0000 == -(s + n)
            * 0x8000_0000) by (nonlinear_arith)
            requires
                0 <= n,
                -0x8000_0000 <= p <= 0x8000_0000,
        ;
    }
}

/// As `lemma_rsu_event_value_bounds`, for option events against the spread.
pub proof fn lemma_option_event_value_bounds(
    events: Seq<OptionGrantVestingEvent>,
    lo: Date,
    hi: Date,
    psp: Seq<PreferredStockPriceValuation>,
    x: int,
)
    requires
        forall|i: int| 0 <= i < events.len() ==> (#[trigger] events[i]).number >= 0,
        -0x8000_0000 <= x <= 0x8000_0000,
    ensures
        -sum_option_event_numbers(events) * 0x1_0000_0000 <= option_event_value_between(
            events,
            lo,
            hi,
            psp,
            x,
        ) <= sum_option_event_numbers(events) * 0x1_0000_0000,
    decreases events.len(),
{
    if events.len() > 0 {
        lemma_option_event_value_bounds(events.drop_last(), lo, hi, psp, x);
        let n = events.last().number as int;
        let p = spec_price_at(psp, events.last().date);
        let s = sum_option_event_numbers(events.drop_last());
        assert(-n * 0x1_0000_0000 <= n * (p - x) <= n * 0x1_0000_0000 && s * 0x1_0000_0000 + n
            * 0x1_0000_0000 == (s + n) * 0x1_0000_0000 && -s * 0x1_0000_0000 - n * 0x1_0000_0000
            == -(s + n) * 0x1_0000_0000) by (nonlinear_arith)
            requires
                0 <= n,
                -0x8000_0000 <= p <= 0x8000_0000,
                -0x8000_0000 <= x <= 0x8000_0000,
        ;
    }
}

/// Realized value across option grants is bounded by the event unit mass
/// times the largest expressible spread.
pub proof fn lemma_option_grants_event_value_bounds(
    grants: Seq<OptionGrant>,
    lo: Date,
    hi: Date,
    psp: Seq<PreferredStockPriceValuation>,
)
    requires
        crate::sums::option_numbers_nonneg(grants),
    ensures
        -option_event_mass(grants) * 0x1_0000_0000 <= option_grants_event_value_between(
            grants,
            lo,
            hi,
            psp,
        ) <= option_event_mass(grants) * 0x1_0000_0000,
    decreases grants.len(),
{
    if grants.len() > 0 {
        assert(crate::sums::option_numbers_nonneg(grants.drop_last())) by {
            assert(forall|g: int|
                0 <= g < grants.drop_last().len() ==> #[trigger] grants.drop_last()[g]
                    == grants[g]);
        }
        lemma_option_grants_event_value_bounds(grants.drop_last(), lo, hi, psp);
        assert(grants.last() == grants[grants.len() - 1]);
        lemma_option_event_value_bounds(
            grants.last().vesting_schedule.events@,
            lo,
            hi,
            psp,
            grants.last().value.exercise_price as int,
        );
    }
}

/// As `lemma_option_grants_event_value_bounds`, for the RSU grants.
pub proof fn lemma_rsu_grants_event_value_bounds(
    grants: Seq<RestrictedStockUnitGrant>,
    lo: Date,
    hi: Date,
    psp: Seq<PreferredStockPriceValuation>,
)
    requires
        crate::sums::rsu_numbers_nonneg(grants),
    ensures
        -rsu_total_mass(grants) * 0x8000_0000 <= rsu_grants_event_value_between(grants, lo, hi, psp)
            <= rsu_total_mass(grants) * 0x8000_0000,
    decreases grants.len(),
{
    if grants.len() > 0 {
        assert(crate::sums::rsu_numbers_nonneg(grants.drop_last())) by {
            assert(forall|g: int|
                0 <= g < grants.drop_last().len() ==> #[trigger] grants.drop_last()[g]
                    == grants[g]);
        }
        lemma_rsu_grants_event_value_bounds(grants.drop_last(), lo, hi, psp);
        assert(grants.last() == grants[grants.len() - 1]);
        lemma_rsu_event_value_bounds(grants.last().vesting_schedule.events@, lo, hi, psp);
    }
}

/// Signed value realized in a window by one grant's events, each valued at
/// the price on its own date; fails with the offending event's date when no
/// price is in force there.
fn option_grant_window_value(
    events: &Vec<OptionGrantVestingEvent>,
    exercise_price: i32,
    from: &Date,
    to: &Date,
    psp: &PreferredStockPrice,
) -> (r: Result<i64, EquityError>)
    requires
        forall|i: int| 0 <= i < events@.len() ==> (#[trigger] events@[i]).number >= 0,
        sum_option_event_numbers(events@) <= 100_000_000,
    ensures
        match r {
            Ok(v) => {
                &&& v as int == option_event_value_between(
                    events@,
                    *from,
                    *to,
                    psp@,
                    exercise_price as int,
                )
                &&& option_events_priced(events@, *from, *to, psp@)
            },
            Err(e) => e matches EquityError::NoValuationAvailable(d) && {
                &&& spec_value_on(psp@, d) is None
                &&& date_le(*from, d) && date_le(d, *to)
                &&& exists|i: int| 0 <= i < events@.len() && (#[trigger] events@[i]).date == d
            },
        },
{
    proof {
        crate::sums::lemma_sum_option_event_numbers_nonneg(events@);
    }
    let m = events.len();
    let mut acc: i64 = 0;
    let mut k: usize = 0;
    while k < m
        invariant
            0 <= k <= m,
            m == events@.len(),
            acc as int == option_event_value_between(
                events@.take(k as int),
                *from,
                *to,
                psp@,
                exercise_price as int,
            ),
            -sum_option_event_numbers(events@) * 0x1_0000_0000 <= acc <= sum_option_event_numbers(
                events@,
            ) * 0x1_0000_0000,
            forall|i: int|
                0 <= i < k && date_le(*from, (#[trigger] events@[i]).date) && date_le(
                    events@[i].date,
                    *to,
                ) ==> spec_value_on(psp@, events@[i].date) is Some,
        decreases m - k,
    {
        proof {
            let ev = events@;
            assert(ev.take(k + 1).drop_last() =~= ev.take(k as int));
            assert(ev.take(k + 1).last() == ev[k as int]);
            assert(forall|i: int|
                0 <= i < ev.take(k + 1).len() ==> (#[trigger] ev.take(k + 1)[i]).number >= 0);
            assert(forall|i: int|
                0 <= i < ev.take(k as int).len() ==> (#[trigger] ev.take(k as int)[i]).number >= 0);
            lemma_option_event_value_bounds(
                ev.take(k + 1),
                *from,
                *to,
                psp@,
                exercise_price as int,
            );
            crate::sums::lemma_option_sum_prefix_bounds(ev, k + 1);
            crate::sums::lemma_option_sum_prefix_bounds(ev, k as int);
        }
        let ev = &events[k];
        if from.le(&ev.date) && ev.date.le(to) {
            let p = match psp.value_on(&ev.date) {
                Ok(p) => p,
                Err(e) => {
                    return Err(e);
                },
            };
            proof {
                let n = events@[k as int].number as int;
                assert(n <= sum_option_event_numbers(events@.take(k + 1))) by {
                    crate::sums::lemma_sum_option_event_numbers_nonneg(events@.take(k as int));
                }
                assert(-n * 0x1_0000_0000 <= n * (p - exercise_price) <= n * 0x1_0000_0000)
                    by (nonlinear_arith)
                    requires
                        0 <= n,
                        -0x1_0000_0000 <= p - exercise_price <= 0x1_0000_0000,
                ;
                assert(n * 0x1_0000_0000 <= 100_000_000i64 * 0x1_0000_0000) by (nonlinear_arith)
                    requires
                        0 <= n <= 100_000_000,
                ;
            }
            acc = acc + (ev.number as i64) * (p as i64 - exercise_price as i64);
        }
        k += 1;
    }
    proof {
        assert(events@.take(m as int) =~= events@);
    }
    Ok(acc)
}

/// As `option_grant_window_value`, for one RSU grant (no strike: units times
/// the price on the event's date).
fn rsu_grant_window_value(
    events: &Vec<RestrictedStockUnitVestingEvent>,
    from: &Date,
    to: &Date,
    psp: &PreferredStockPrice,
) -> (r: Result<i64, EquityError>)
    requires
        forall|i: int| 0 <= i < events@.len() ==> (#[trigger] events@[i]).number >= 0,
        sum_event_numbers(events@) <= 100_000_000,
    ensures
        match r {
            Ok(v) => {
                &&& v as int == rsu_event_value_between(events@, *from, *to, psp@)
                &&& rsu_events_priced(events@, *from, *to, psp@)
            },
            Err(e) => e matches EquityError::NoValuationAvailable(d) && {
                &&& spec_value_on(psp@, d) is None
                &&& date_le(*from, d) && date_le(d, *to)
                &&& exists|i: int| 0 <= i < events@.len() && (#[trigger] events@[i]).date == d
            },
        },
{
    proof {
        crate::sums::lemma_sum_event_numbers_nonneg(events@);
    }
    let m = events.len();
    let mut acc: i64 = 0;
    let mut k: usize = 0;
    while k < m
        invariant
            0 <= k <= m,
            m == events@.len(),
            acc as int == rsu_event_value_between(events@.take(k as int), *from, *to, psp@),
            -sum_event_numbers(events@) * 0x8000_0000 <= acc <= sum_event_numbers(events@)
                * 0x8000_0000,
            forall|i: int|
                0 <= i < k && date_le(*from, (#[trigger] events@[i]).date) && date_le(
                    events@[i].date,
                    *to,
                ) ==> spec_value_on(psp@, events@[i].date) is Some,
        decreases m - k,
    {
        proof {
            let ev = events@;
            assert(ev.take(k + 1).drop_last() =~= ev.take(k as int));
            assert(ev.take(k + 1).last() == ev[k as int]);
            assert(forall|i: int|
                0 <= i < ev.take(k + 1).len() ==> (#[trigger] ev.take(k + 1)[i]).number >= 0);
            assert(forall|i: int|
                0 <= i < ev.take(k as int).len() ==> (#[trigger] ev.take(k as int)[i]).number >= 0);
            lemma_rsu_event_value_bounds(ev.take(k + 1), *from, *to, psp@);
            crate::rsu::lemma_sum_prefix_bounds(ev, k + 1);
            crate::rsu::lemma_sum_prefix_bounds(ev, k as int);
        }
        let ev = &events[k];
        if from.le(&ev.date) && ev.date.le(to) {
            let p = match psp.value_on(&ev.date) {
                Ok(p) => p,
                Err(e) => {
                    return Err(e);
                },
            };
            proof {
                let n = events@[k as int].number as int;
                assert(n <= sum_event_numbers(events@.take(k + 1))) by {
                    crate::sums::lemma_sum_event_numbers_nonneg(events@.take(k as int));
                }
                assert(-n * 0x8000_0000 <= n * p <= n * 0x8000_0000) by (nonlinear_arith)
                    requires
                        0 <= n,
                        -0x8000_0000 <= p <= 0x8000_0000,
                ;
                assert(n * 0x8000_0000 <= 100_000_000i64 * 0x8000_0000) by (nonlinear_arith)
                    requires
                        0 <= n <= 100_000_000,
                ;
            }
            acc = acc + (ev.number as i64) * (p as i64);
        }
        k += 1;
    }
    proof {
        assert(events@.take(m as int) =~= events@);
    }
    Ok(acc)
}

/// Unit masses of a grant-list prefix lie between zero and the whole mass.
pub proof fn lemma_option_event_mass_take(grants: Seq<OptionGrant>, j: int)
    requires
        0 <= j <= grants.len(),
        crate::sums::option_numbers_nonneg(grants),
    ensures
        0 <= option_event_mass(grants.take(j)) <= option_event_mass(grants),
    decreases grants.len() - j,
{
    let d = Date { year: 1, month: 1, day: 1 };
    assert(crate::sums::option_numbers_nonneg(grants.take(j))) by {
        assert(forall|g: int|
            0 <= g < grants.take(j).len() ==> #[trigger] grants.take(j)[g] == grants[g]);
    }
    crate::sums::lemma_option_grant_sums_bounds(grants.take(j), d, d);
    if j == grants.len() {
        assert(grants.take(j) =~= grants);
    } else {
        lemma_option_event_mass_take(grants, j + 1);
        assert(grants.take(j + 1).drop_last() =~= grants.take(j));
        assert(grants.take(j + 1).last() == grants[j]);
        crate::sums::lemma_sum_option_event_numbers_nonneg(grants[j].vesting_schedule.events@);
    }
}

pub proof fn lemma_rsu_mass_take(grants: Seq<RestrictedStockUnitGrant>, j: int)
    requires
        0 <= j <= grants.len(),
        crate::sums::rsu_numbers_nonneg(grants),
    ensures
        0 <= rsu_total_mass(grants.take(j)) <= rsu_total_mass(grants),
    decreases grants.len() - j,
{
    let d = Date { year: 1, month: 1, day: 1 };
    assert(crate::sums::rsu_numbers_nonneg(grants.take(j))) by {
        assert(forall|g: int|
            0 <= g < grants.take(j).len() ==> #[trigger] grants.take(j)[g] == grants[g]);
    }
    crate::sums::lemma_rsu_grant_sums_bounds(grants.take(j), d, d);
    if j == grants.len() {
        assert(grants.take(j) =~= grants);
    } else {
        lemma_rsu_mass_take(grants, j + 1);
        assert(grants.take(j + 1).drop_last() =~= grants.take(j));
        assert(grants.take(j + 1).last() == grants[j]);
        crate::sums::lemma_sum_event_numbers_nonneg(grants[j].vesting_schedule.events@);
    }
}

/// One line of the incremental report: the quarter window `[from, to]`, the
/// value realized in it per grant (options first, then RSUs, in input
/// order), and their total.
#[derive(Debug)]
pub struct ReportLine {
    pub from: Date,
    pub to: Date,
    pub total: i64,
    pub by_grant: Vec<i64>,
}

/// The quarterly incremental report: the grant names (the column order of
/// `by_grant`) and one line per quarter window.
#[derive(Debug)]
pub struct Report {
    pub grant_names: Vec<String>,
    pub lines: Vec<ReportLine>,
}

/// Configuration of the incremental report.
pub struct ReportOptions {
    pub quarter_type: QuarterType,
}

/// What one report line must hold for the window starting at `from`.
pub open spec fn quarter_line_matches(
    line: ReportLine,
    psp: Seq<PreferredStockPriceValuation>,
    opts: Seq<OptionGrant>,
    rsus: Seq<RestrictedStockUnitGrant>,
    from: Date,
) -> bool {
    let to = spec_prev_day(spec_add_months(from, 3));
    &&& line.from == from
    &&& line.to == to
    &&& from.is_valid()
    &&& to.is_valid()
    &&& line.by_grant@.len() == opts.len() + rsus.len()
    &&& forall|j: int|
        0 <= j < opts.len() ==> line.by_grant@[j] as int == option_event_value_between(
            (#[trigger] opts[j]).vesting_schedule.events@,
            from,
            to,
            psp,
            opts[j].value.exercise_price as int,
        )
    &&& forall|j: int|
        0 <= j < rsus.len() ==> line.by_grant@[opts.len() + j] as int == rsu_event_value_between(
            (#[trigger] rsus[j]).vesting_schedule.events@,
            from,
            to,
            psp,
        )
    &&& forall|g: int|
        0 <= g < opts.len() ==> option_events_priced(
            (#[trigger] opts[g]).vesting_schedule.events@,
            from,
            to,
            psp,
        )
    &&& forall|g: int|
        0 <= g < rsus.len() ==> rsu_events_priced(
            (#[trigger] rsus[g]).vesting_schedule.events@,
            from,
            to,
            psp,
        )
    &&& line.total as int == option_grants_event_value_between(opts, from, to, psp)
        + rsu_grants_event_value_between(rsus, from, to, psp)
}

/// Everything `Report::new` promises of a finished report, relative to the
/// run's earliest commencement and latest final event date.
pub open spec fn report_matches(
    rep: Report,
    psp: Seq<PreferredStockPriceValuation>,
    opts: Seq<OptionGrant>,
    rsus: Seq<RestrictedStockUnitGrant>,
    qt: QuarterType,
    start: Date,
    end: Date,
) -> bool {
    let start_q = qt.spec_start_of_quarter(start);
    let end_q = qt.spec_start_of_quarter(end);
    &&& (date_le(start_q, end_q) ==> {
        &&& rep.lines@.len() >= 1
        &&& rep.lines@[0].from == start_q
        &&& rep.lines@[rep.lines@.len() - 1].from == end_q
        &&& date_le(end, rep.lines@[rep.lines@.len() - 1].to)
        &&& forall|i: int|
            0 <= i < rep.lines@.len() ==> quarter_line_matches(
                #[trigger] rep.lines@[i],
                psp,
                opts,
                rsus,
                spec_nth_quarter(start_q, i),
            )
    })
    &&& (!date_le(start_q, end_q) ==> rep.lines@.len() == 0)
}

/// The inputs the quarterly engine accepts: those of the daily engine, with
/// every anchor date far enough from the supported year range's edges that
/// quarter windows around it exist.
pub open spec fn quarter_inputs_wf(
    opts: Seq<OptionGrant>,
    rsus: Seq<RestrictedStockUnitGrant>,
) -> bool {
    &&& inputs_wf(opts, rsus)
    &&& forall|g: int|
        0 <= g < opts.len() ==> 2 <= (#[trigger] opts[g]).vesting_schedule.commences_on.year
            <= 9998
    &&& forall|g: int|
        0 <= g < rsus.len() ==> 2 <= (#[trigger] rsus[g]).vesting_schedule.commences_on.year
            <= 9998
    &&& forall|g: int, i: int|
        0 <= g < opts.len() && 0 <= i < opts[g].vesting_schedule.events@.len() ==> (
        #[trigger] opts[g].vesting_schedule.events@[i]).date.year >= 2
    &&& forall|g: int, i: int|
        0 <= g < rsus.len() && 0 <= i < rsus[g].vesting_schedule.events@.len() ==> (
        #[trigger] rsus[g].vesting_schedule.events@[i]).date.year >= 2
}

/// One quarter window's line: the realized value per grant and in total.
fn window_line(
    psp: &PreferredStockPrice,
    option_grants: &Vec<OptionGrant>,
    rsu_grants: &Vec<RestrictedStockUnitGrant>,
    from: &Date,
    to: &Date,
) -> (r: Result<ReportLine, EquityError>)
    requires
        crate::sums::option_numbers_nonneg(option_grants@),
        crate::sums::rsu_numbers_nonneg(rsu_grants@),
        option_event_mass(option_grants@) <= 100_000_000,
        rsu_total_mass(rsu_grants@) <= 100_000_000,
        *to == spec_prev_day(spec_add_months(*from, 3)),
        from.is_valid(),
        to.is_valid(),
    ensures
        match r {
            Ok(line) => quarter_line_matches(line, psp@, option_grants@, rsu_grants@, *from),
            Err(e) => e matches EquityError::NoValuationAvailable(d) && {
                &&& spec_value_on(psp@, d) is None
                &&& date_le(*from, d) && date_le(d, *to)
                &&& event_dated(d, option_grants@, rsu_grants@)
            },
        },
{
    let n_opt = option_grants.len();
    let n_rsu = rsu_grants.len();
    let mut by_grant: Vec<i64> = Vec::new();
    let mut total: i64 = 0;
    let mut j: usize = 0;
    while j < n_opt
        invariant
            0 <= j <= n_opt,
            n_opt == option_grants@.len(),
            by_grant@.len() == j,
            total as int == option_grants_event_value_between(
                option_grants@.take(j as int),
                *from,
                *to,
                psp@,
            ),
            forall|jj: int|
                0 <= jj < j ==> by_grant@[jj] as int == option_event_value_between(
                    (#[trigger] option_grants@[jj]).vesting_schedule.events@,
                    *from,
                    *to,
                    psp@,
                    option_grants@[jj].value.exercise_price as int,
                ),
            forall|g: int|
                0 <= g < j ==> option_events_priced(
                    (#[trigger] option_grants@[g]).vesting_schedule.events@,
                    *from,
                    *to,
                    psp@,
                ),
        decreases n_opt - j,
    {
        proof {
            crate::sums::lemma_option_grant_within_mass(option_grants@, j as int);
            assert(option_grants@.take(j + 1).drop_last() =~= option_grants@.take(j as int));
            assert(option_grants@.take(j + 1).last() == option_grants@[j as int]);
            assert(crate::sums::option_numbers_nonneg(option_grants@.take(j + 1))) by {
                assert(forall|g: int|
                    0 <= g < option_grants@.take(j + 1).len() ==> #[trigger] option_grants@.take(
                        j + 1,
                    )[g] == option_grants@[g]);
            }
            lemma_option_grants_event_value_bounds(
                option_grants@.take(j + 1),
                *from,
                *to,
                psp@,
            );
            lemma_option_event_mass_take(option_grants@, j + 1);
        }
        let g = &option_grants[j];
        let v = match option_grant_window_value(
            &g.vesting_schedule.events,
            g.value.exercise_price,
            from,
            to,
            psp,
        ) {
            Ok(v) => v,
            Err(e) => {
                return Err(e);
            },
        };
        total = total + v;
        by_grant.push(v);
        j += 1;
    }
    proof {
        assert(option_grants@.take(n_opt as int) =~= option_grants@);
        lemma_option_grants_event_value_bounds(option_grants@, *from, *to, psp@);
    }
    let mut i: usize = 0;
    while i < n_rsu
        invariant
            0 <= i <= n_rsu,
            n_rsu == rsu_grants@.len(),
            by_grant@.len() == n_opt + i,
            n_opt == option_grants@.len(),
            total as int == option_grants_event_value_between(option_grants@, *from, *to, psp@)
                + rsu_grants_event_value_between(rsu_grants@.take(i as int), *from, *to, psp@),
            forall|jj: int|
                0 <= jj < n_opt ==> by_grant@[jj] as int == option_event_value_between(
                    (#[trigger] option_grants@[jj]).vesting_schedule.events@,
                    *from,
                    *to,
                    psp@,
                    option_grants@[jj].value.exercise_price as int,
                ),
            forall|g: int|
                0 <= g < n_opt ==> option_events_priced(
                    (#[trigger] option_grants@[g]).vesting_schedule.events@,
                    *from,
                    *to,
                    psp@,
                ),
            forall|jj: int|
                0 <= jj < i ==> by_grant@[n_opt + jj] as int == rsu_event_value_between(
                    (#[trigger] rsu_grants@[jj]).vesting_schedule.events@,
                    *from,
                    *to,
                    psp@,
                ),
            forall|g: int|
                0 <= g < i ==> rsu_events_priced(
                    (#[trigger] rsu_grants@[g]).vesting_schedule.events@,
                    *from,
                    *to,
                    psp@,
                ),
        decreases n_rsu - i,
    {
        proof {
            crate::sums::lemma_rsu_grant_within_mass(rsu_grants@, i as int);
            assert(rsu_grants@.take(i + 1).drop_last() =~= rsu_grants@.take(i as int));
            assert(rsu_grants@.take(i + 1).last() == rsu_grants@[i as int]);
            assert(crate::sums::rsu_numbers_nonneg(rsu_grants@.take(i + 1))) by {
                assert(forall|g: int|
                    0 <= g < rsu_grants@.take(i + 1).len() ==> #[trigger] rsu_grants@.take(
                        i + 1,
                    )[g] == rsu_grants@[g]);
            }
            lemma_rsu_grants_event_value_bounds(rsu_grants@.take(i + 1), *from, *to, psp@);
            lemma_rsu_mass_take(rsu_grants@, i + 1);
            crate::sums::lemma_mul_bound(
                rsu_total_mass(rsu_grants@.take(i + 1)),
                0x8000_0000,
                100_000_000,
            );
        }
        let g = &rsu_grants[i];
        let v = match rsu_grant_window_value(&g.vesting_schedule.events, from, to, psp) {
            Ok(v) => v,
            Err(e) => {
                return Err(e);
            },
        };
        total = total + v;
        by_grant.push(v);
        i += 1;
    }
    proof {
        assert(rsu_grants@.take(n_rsu as int) =~= rsu_grants@);
    }
    Ok(ReportLine { from: *from, to: *to, total, by_grant })
}

impl Report {
    /// Walks quarter windows of the selected policy from the window
    /// containing the earliest schedule commencement to the window
    /// containing the latest vesting event, summing each grant's realized
    /// value per window, every event valued at the price on its own date.
    /// Fails with `NoValuationAvailable` exactly when some event inside the
    /// covered windows has no price in force on its date.
    #[verifier::rlimit(100)]
    pub fn new(
        psp: &PreferredStockPrice,
        option_grants: &Vec<OptionGrant>,
        rsu_grants: &Vec<RestrictedStockUnitGrant>,
        options: ReportOptions,
    ) -> (r: Result<Report, EquityError>)
        requires
            quarter_inputs_wf(option_grants@, rsu_grants@),
        ensures
            r is Ok ==> ({
                let rep = r->Ok_0;
                &&& rep.grant_names@.len() == option_grants@.len() + rsu_grants@.len()
                &&& forall|j: int|
                    0 <= j < option_grants@.len() ==> rep.grant_names@[j]@ == (
                    #[trigger] option_grants@[j]).name@
                &&& forall|j: int|
                    0 <= j < rsu_grants@.len() ==> rep.grant_names@[option_grants@.len() + j]@ == (
                    #[trigger] rsu_grants@[j]).name@
                &&& forall|s: Date, f: Date|
                    is_earliest_commencement(s, option_grants@, rsu_grants@)
                        && is_latest_final_event(f, option_grants@, rsu_grants@)
                        ==> report_matches(
                        rep,
                        psp@,
                        option_grants@,
                        rsu_grants@,
                        options.quarter_type,
                        s,
                        f,
                    )
            }),
            r is Err ==> (r->Err_0 matches EquityError::NoValuationAvailable(d) && {
                &&& spec_value_on(psp@, d) is None
                &&& event_dated(d, option_grants@, rsu_grants@)
                &&& forall|s: Date|
                    is_earliest_commencement(s, option_grants@, rsu_grants@) ==> date_le(
                        options.quarter_type.spec_start_of_quarter(s),
                        d,
                    )
                &&& forall|f: Date|
                    is_latest_final_event(f, option_grants@, rsu_grants@) ==> date_le(d, f)
            }),
    {
        let start = crate::total::earliest_commencement(option_grants, rsu_grants);
        let end = crate::total::latest_final_event(option_grants, rsu_grants);
        proof {
            if exists|g: int|
                0 <= g < option_grants@.len() && (
                #[trigger] option_grants@[g]).vesting_schedule.commences_on == start {
                let g = choose|g: int|
                    0 <= g < option_grants@.len() && (
                    #[trigger] option_grants@[g]).vesting_schedule.commences_on == start;
                assert(2 <= start.year <= 9998 && start.is_valid());
            } else {
                let g = choose|g: int|
                    0 <= g < rsu_grants@.len() && (
                    #[trigger] rsu_grants@[g]).vesting_schedule.commences_on == start;
                assert(2 <= start.year <= 9998 && start.is_valid());
            }
            if exists|g: int|
                0 <= g < option_grants@.len() && (
                #[trigger] option_grants@[g]).vesting_schedule.events@.last().date == end {
                let g = choose|g: int|
                    0 <= g < option_grants@.len() && (
                    #[trigger] option_grants@[g]).vesting_schedule.events@.last().date == end;
                let ev = option_grants@[g].vesting_schedule.events@;
                assert(ev.last() == ev[ev.len() - 1]);
            } else {
                let g = choose|g: int|
                    0 <= g < rsu_grants@.len() && (
                    #[trigger] rsu_grants@[g]).vesting_schedule.events@.last().date == end;
                let ev = rsu_grants@[g].vesting_schedule.events@;
                assert(ev.last() == ev[ev.len() - 1]);
            }
            assert(2 <= end.year <= 9998 && end.is_valid());
        }
        let start_q = options.quarter_type.start_of_quarter(&start);
        let end_q = options.quarter_type.start_of_quarter(&end);
        // column order: option grants first, then RSU grants, in input order
        let mut grant_names: Vec<String> = Vec::new();
        let n_opt = option_grants.len();
        let n_rsu = rsu_grants.len();
        let mut g: usize = 0;
        while g < n_opt
            invariant
                0 <= g <= n_opt,
                n_opt == option_grants@.len(),
                grant_names@.len() == g,
                forall|jj: int|
                    0 <= jj < g ==> grant_names@[jj]@ == (#[trigger] option_grants@[jj]).name@,
            decreases n_opt - g,
        {
            grant_names.push(option_grants[g].name.clone());
            g += 1;
        }
        let mut h: usize = 0;
        while h < n_rsu
            invariant
                0 <= h <= n_rsu,
                n_opt == option_grants@.len(),
                n_rsu == rsu_grants@.len(),
                grant_names@.len() == n_opt + h,
                forall|jj: int|
                    0 <= jj < n_opt ==> grant_names@[jj]@ == (#[trigger] option_grants@[jj]).name@,
                forall|jj: int|
                    0 <= jj < h ==> grant_names@[n_opt + jj]@ == (#[trigger] rsu_grants@[jj]).name@,
            decreases n_rsu - h,
        {
            grant_names.push(rsu_grants[h].name.clone());
            h += 1;
        }
        let mut lines: Vec<ReportLine> = Vec::new();
        let mut cursor = start_q;
        let ghost base: int = 12 * start_q.year + start_q.month;
        let ghost mut prev_from: Date = start_q;
        while cursor.le(&end_q)
            invariant
                cursor.is_valid(),
                quarter_aligned(options.quarter_type, cursor),
                date_le(start_q, cursor),
                cursor == spec_nth_quarter(start_q, lines@.len() as int),
                12 * cursor.year + cursor.month == base + 3 * lines@.len(),
                lines@.len() > 0 ==> ({
                    &&& prev_from == spec_nth_quarter(start_q, lines@.len() - 1)
                    &&& prev_from.is_valid()
                    &&& quarter_aligned(options.quarter_type, prev_from)
                    &&& date_le(prev_from, end_q)
                    &&& cursor == spec_add_months(prev_from, 3)
                }),
                forall|i: int|
                    0 <= i < lines@.len() ==> quarter_line_matches(
                        #[trigger] lines@[i],
                        psp@,
                        option_grants@,
                        rsu_grants@,
                        spec_nth_quarter(start_q, i),
                    ),
            decreases (if date_le(cursor, end_q) {
                (end_q.year + 1 - cursor.year) * 12 + (12 - cursor.month)
            } else {
                0
            }),
        {
            let from = cursor;
            proof {
                crate::date::lemma_add_months_linear(from, 3);
            }
            let next = from.add_months(3);
            let to = next.prev_day();
            let line = match window_line(psp, option_grants, rsu_grants, &from, &to) {
                Ok(line) => line,
                Err(e) => {
                    proof {
                        let d = e->NoValuationAvailable_0;
                        assert forall|s: Date|
                            is_earliest_commencement(s, option_grants@, rsu_grants@) implies date_le(
                            options.quarter_type.spec_start_of_quarter(s),
                            d,
                        ) by {
                            crate::total::lemma_earliest_unique(
                                option_grants@,
                                rsu_grants@,
                                s,
                                start,
                            );
                        }
                        assert forall|f: Date|
                            is_latest_final_event(f, option_grants@, rsu_grants@) implies date_le(
                            d,
                            f,
                        ) by {
                            crate::total::lemma_latest_unique(option_grants@, rsu_grants@, f, end);
                            if exists|g: int, i: int|
                                0 <= g < option_grants@.len() && 0 <= i
                                    < option_grants@[g].vesting_schedule.events@.len() && (
                                #[trigger] option_grants@[g].vesting_schedule.events@[i]).date
                                    == d {
                                let (g, i) = choose|g: int, i: int|
                                    0 <= g < option_grants@.len() && 0 <= i
                                        < option_grants@[g].vesting_schedule.events@.len() && (
                                    #[trigger] option_grants@[g].vesting_schedule.events@[i]).date
                                        == d;
                                let ev = option_grants@[g].vesting_schedule.events@;
                                assert(ev.last() == ev[ev.len() - 1]);
                                assert(date_le(ev[i].date, ev.last().date));
                            } else {
                                let (g, i) = choose|g: int, i: int|
                                    0 <= g < rsu_grants@.len() && 0 <= i
                                        < rsu_grants@[g].vesting_schedule.events@.len() && (
                                    #[trigger] rsu_grants@[g].vesting_schedule.events@[i]).date
                                        == d;
                                let ev = rsu_grants@[g].vesting_schedule.events@;
                                assert(ev.last() == ev[ev.len() - 1]);
                                assert(date_le(ev[i].date, ev.last().date));
                            }
                        }
                    }
                    return Err(e);
                },
            };
            lines.push(line);
            proof {
                prev_from = from;
                assert(spec_days_in_month(next.year as int, next.month as int) >= 28) by {
                    assert(next.is_valid());
                }
                assert(next.day == from.day);
                assert(quarter_aligned(options.quarter_type, next));
            }
            cursor = next;
        }
        proof {
            crate::date::lemma_date_le_total(cursor, end_q);
            if lines@.len() > 0 {
                assert(prev_from.day == end_q.day);
                assert(prev_from == end_q) by {
                    let i1 = 12 * prev_from.year + prev_from.month;
                    let i2 = 12 * end_q.year + end_q.month;
                    assert(i1 <= i2);
                    assert(i2 < i1 + 3);
                }
                crate::date::lemma_add_months_linear(end_q, 3);
                crate::date::lemma_prev_day_is_predecessor(end, spec_add_months(end_q, 3));
            } else {
                assert(cursor == start_q);
            }
        }
        let rep = Report { grant_names, lines };
        proof {
            assert forall|s: Date, f: Date|
                is_earliest_commencement(s, option_grants@, rsu_grants@) && is_latest_final_event(
                    f,
                    option_grants@,
                    rsu_grants@,
                ) implies report_matches(
                rep,
                psp@,
                option_grants@,
                rsu_grants@,
                options.quarter_type,
                s,
                f,
            ) by {
                crate::total::lemma_earliest_unique(option_grants@, rsu_grants@, s, start);
                crate::total::lemma_latest_unique(option_grants@, rsu_grants@, f, end);
            }
        }
        Ok(rep)
    }
}

/// Command-line selections for the incremental report.
pub struct IncrementalReportArgs {
    pub skewed_quarter_dates: bool,
    pub destination: String,
}

impl IncrementalReportArgs {
    /// The report configuration these selections ask for.
    pub fn to_report_options(&self) -> (r: ReportOptions)
        ensures
            r.quarter_type == (if self.skewed_quarter_dates {
                QuarterType::Skewed
            } else {
                QuarterType::Calendar
            }),
    {
        ReportOptions {
            quarter_type: if self.skewed_quarter_dates {
                QuarterType::Skewed
            } else {
                QuarterType::Calendar
            },
        }
    }
}

} // verus!
