//! Cross-report laws: the daily and quarterly engines agree on the value a
//! grant realizes, even though one walks days and the other quarter windows.
use vstd::prelude::*;

use crate::date::{
    date_le, date_lt, lemma_date_le_total, lemma_next_day_gt, lemma_next_day_is_successor,
    lemma_prev_day_is_predecessor, spec_day, spec_next_day, spec_prev_day, Date,
};
use crate::incr::{rsu_event_value_between, spec_price_at};
use crate::psp::PreferredStockPriceValuation;
use crate::rsu::RestrictedStockUnitVestingEvent;
use crate::sums::rsu_units_between;

verus! {

/// The units a single grant's daily vested balance gains on day `d`, in a
/// run whose first day is `start`: the balance on `d` minus the balance the
/// day before.
pub open spec fn daily_vested_units_delta(
    events: Seq<RestrictedStockUnitVestingEvent>,
    start: Date,
    d: Date,
) -> int {
    rsu_units_between(events, start, d) - rsu_units_between(events, start, spec_prev_day(d))
}

/// The daily report's vested-value deltas, valued at each day's own price,
/// summed over the `n` days beginning at `from`.
pub open spec fn sum_daily_vested_value_deltas(
    events: Seq<RestrictedStockUnitVestingEvent>,
    start: Date,
    from: Date,
    n: nat,
    psp: Seq<PreferredStockPriceValuation>,
) -> int
    decreases n,
{
    if n == 0 {
        0
    } else {
        sum_daily_vested_value_deltas(events, start, from, (n - 1) as nat, psp)
            + daily_vested_units_delta(events, start, spec_day(from, n - 1)) * spec_price_at(
            psp,
            spec_day(from, n - 1),
        )
    }
}

/// A range with its bounds out of order holds no events.
proof fn lemma_rsu_units_between_void(
    events: Seq<RestrictedStockUnitVestingEvent>,
    lo: Date,
    hi: Date,
)
    requires
        !date_le(lo, hi),
    ensures
        rsu_units_between(events, lo, hi) == 0,
    decreases events.len(),
{
    if events.len() > 0 {
        lemma_rsu_units_between_void(events.drop_last(), lo, hi);
    }
}

/// The smallest valid date comes first.
proof fn lemma_min_date(d: Date)
    requires
        d.is_valid(),
    ensures
        date_le(Date { year: 1, month: 1, day: 1 }, d),
{
}

/// On a single day, realized event value is the day's unit count at the
/// day's price.
proof fn lemma_rsu_event_value_on_day(
    events: Seq<RestrictedStockUnitVestingEvent>,
    d: Date,
    psp: Seq<PreferredStockPriceValuation>,
)
    ensures
        rsu_event_value_between(events, d, d, psp) == rsu_units_between(events, d, d)
            * spec_price_at(psp, d),
    decreases events.len(),
{
    if events.len() == 0 {
        assert(0 * spec_price_at(psp, d) == 0) by (nonlinear_arith);
    } else {
        lemma_rsu_event_value_on_day(events.drop_last(), d, psp);
        let e = events.last();
        let u = rsu_units_between(events.drop_last(), d, d);
        let p = spec_price_at(psp, d);
        if date_le(d, e.date) && date_le(e.date, d) {
            lemma_date_le_total(d, e.date);
            assert(e.date == d);
            assert((u + e.number) * p == u * p + e.number * p) by (nonlinear_arith);
        }
    }
}

/// A day range `[lo, next_day(last)]` splits into `[lo, last]` plus the
/// single new day, for realized event value.
proof fn lemma_rsu_event_value_step(
    events: Seq<RestrictedStockUnitVestingEvent>,
    lo: Date,
    last: Date,
    c: Date,
    psp: Seq<PreferredStockPriceValuation>,
)
    requires
        last.is_valid(),
        c == spec_next_day(last),
        date_le(lo, last),
        forall|i: int| 0 <= i < events.len() ==> (#[trigger] events[i]).date.is_valid(),
    ensures
        rsu_event_value_between(events, lo, c, psp) == rsu_event_value_between(events, lo, last, psp)
            + rsu_event_value_between(events, c, c, psp),
    decreases events.len(),
{
    lemma_next_day_gt(last);
    if events.len() > 0 {
        lemma_rsu_event_value_step(events.drop_last(), lo, last, c, psp);
        let d = events.last().date;
        if date_le(d, c) && !date_le(d, last) {
            lemma_date_le_total(d, last);
            lemma_next_day_is_successor(last, d);
            lemma_date_le_total(d, c);
        }
    }
}

/// The daily balance's gain on day `d` is the unit count of the events dated
/// exactly `d`, provided every event is at or after the run's start.
proof fn lemma_daily_delta_is_units_on(
    events: Seq<RestrictedStockUnitVestingEvent>,
    start: Date,
    d: Date,
)
    requires
        start.is_valid(),
        d.is_valid(),
        forall|i: int|
            0 <= i < events.len() ==> (#[trigger] events[i]).date.is_valid() && date_le(
                start,
                events[i].date,
            ),
    ensures
        daily_vested_units_delta(events, start, d) == rsu_units_between(events, d, d),
    decreases events.len(),
{
    if date_lt(d, start) {
        lemma_rsu_units_between_void(events, start, d);
        lemma_rsu_units_between_void(events, start, spec_prev_day(d));
        assert(rsu_units_between(events, d, d) == 0) by {
            if events.len() > 0 {
                assert(forall|i: int|
                    0 <= i < events.drop_last().len() ==> (#[trigger] events.drop_last()[i]).date
                        == events[i].date);
                lemma_daily_delta_is_units_on(events.drop_last(), start, d);
            }
        }
    } else if d == start {
        assert(!date_le(start, spec_prev_day(d))) by {
            assert(date_lt(spec_prev_day(d), d) || !spec_prev_day(d).is_valid());
            if d.year == 1 && d.month == 1 && d.day == 1 {
                assert(!date_le(start, spec_prev_day(d)));
            } else {
                assert(date_lt(spec_prev_day(d), d));
            }
        }
        lemma_rsu_units_between_void(events, start, spec_prev_day(d));
    } else {
        lemma_date_le_total(d, start);
        lemma_min_date(start);
        let p = spec_prev_day(d);
        assert(!(d.year == 1 && d.month == 1 && d.day == 1));
        assert(p.is_valid());
        assert(spec_next_day(p) == d);
        lemma_prev_day_is_predecessor(start, d);
        crate::sums::lemma_rsu_units_between_step(events, start, p, d);
    }
}

/// Daily and quarterly reports reconcile: for a single RSU grant with no
/// options, in a run whose first day is `start`, the daily report's
/// vested-value deltas —
/// the units gained each day, valued at that day's price — summed over the
/// `n` days beginning at `from` equal the grant's realized value over
/// `[from, last day]` as the incremental report computes it, provided every
/// event vests at or after the run's first day.
pub proof fn lemma_daily_quarterly_reconciliation(
    events: Seq<RestrictedStockUnitVestingEvent>,
    psp: Seq<PreferredStockPriceValuation>,
    start: Date,
    from: Date,
    n: nat,
)
    requires
        start.is_valid(),
        from.is_valid(),
        n >= 1,
        forall|i: int|
            0 <= i < events.len() ==> (#[trigger] events[i]).date.is_valid() && date_le(
                start,
                events[i].date,
            ),
        forall|k: int| 0 <= k < n ==> (#[trigger] spec_day(from, k)).is_valid(),
    ensures
        sum_daily_vested_value_deltas(events, start, from, n, psp) == rsu_event_value_between(
            events,
            from,
            spec_day(from, n - 1),
            psp,
        ),
    decreases n,
{
    let d = spec_day(from, n - 1);
    lemma_daily_delta_is_units_on(events, start, d);
    lemma_rsu_event_value_on_day(events, d, psp);
    assert(sum_daily_vested_value_deltas(events, start, from, n, psp)
        == sum_daily_vested_value_deltas(events, start, from, (n - 1) as nat, psp)
        + daily_vested_units_delta(events, start, d) * spec_price_at(psp, d));
    assert(daily_vested_units_delta(events, start, d) * spec_price_at(psp, d)
        == rsu_event_value_between(events, d, d, psp));
    if n == 1 {
        assert(spec_day(from, 0) == from);
        assert(sum_daily_vested_value_deltas(events, start, from, 0, psp) == 0);
    } else {
        lemma_daily_quarterly_reconciliation(events, psp, start, from, (n - 1) as nat);
        let prev = spec_day(from, n - 2);
        assert(d == spec_next_day(prev));
        assert(date_le(from, prev)) by {
            lemma_spec_day_ge(from, n - 2);
        }
        lemma_rsu_event_value_step(events, from, prev, d, psp);
    }
}

/// As `lemma_daily_quarterly_reconciliation`, stated over a whole window
/// `[from, to]` as the incremental report frames it: the daily report's
/// vested-value deltas summed over the window's `n` days (the returned
/// count) equal `rsu_event_value_between(events, from, to, psp)`, which is
/// exactly the grant's value in the report line whose window this is.
pub proof fn lemma_daily_quarterly_reconciliation_window(
    events: Seq<RestrictedStockUnitVestingEvent>,
    psp: Seq<PreferredStockPriceValuation>,
    start: Date,
    from: Date,
    to: Date,
) -> (n: int)
    requires
        start.is_valid(),
        from.is_valid(),
        to.is_valid(),
        date_le(from, to),
        forall|i: int|
            0 <= i < events.len() ==> (#[trigger] events[i]).date.is_valid() && date_le(
                start,
                events[i].date,
            ),
    ensures
        1 <= n,
        spec_day(from, n - 1) == to,
        sum_daily_vested_value_deltas(events, start, from, n as nat, psp)
            == rsu_event_value_between(events, from, to, psp),
{
    let n = crate::date::lemma_day_span(from, to);
    lemma_daily_quarterly_reconciliation(events, psp, start, from, n as nat);
    n
}

/// Later days in a run come at or after its first day.
proof fn lemma_spec_day_ge(from: Date, k: int)
    requires
        0 <= k,
        forall|j: int| 0 <= j <= k ==> (#[trigger] spec_day(from, j)).is_valid(),
    ensures
        date_le(from, spec_day(from, k)),
    decreases k,
{
    if k > 0 {
        lemma_spec_day_ge(from, k - 1);
        lemma_next_day_gt(spec_day(from, k - 1));
    }
}

} // verus!
