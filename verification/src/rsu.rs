//! Restricted stock unit grants: value terms, dated vesting events, and the
//! materialization of an interval schedule into a unit-exact event list.
use vstd::prelude::*;

use crate::date::{date_le, date_lt, lemma_date_le_total, spec_add_months, Date};
use crate::error::EquityError;

verus! {

/// Value terms of an RSU grant, in minor currency units: the per-unit price
/// at grant time and the total monetary value of the grant.
#[derive(Clone, Copy, Debug, PartialEq, Eq, Structural)]
pub struct RestrictedStockUnitValue {
    pub grant_price_cents: i32,
    pub total_value_cents: i32,
}

impl RestrictedStockUnitValue {
    pub fn new(grant_price_cents: i32, total_value_cents: i32) -> (r: RestrictedStockUnitValue)
        ensures
            r == (RestrictedStockUnitValue { grant_price_cents, total_value_cents }),
    {
        RestrictedStockUnitValue { grant_price_cents, total_value_cents }
    }
}

/// `number` units becoming unconditionally owned on `date`.
#[derive(Clone, Copy, Debug, PartialEq, Eq, Structural)]
pub struct RestrictedStockUnitVestingEvent {
    pub date: Date,
    pub number: i32,
}

impl RestrictedStockUnitVestingEvent {
    pub fn new(date: Date, number: i32) -> (r: RestrictedStockUnitVestingEvent)
        ensures
            r == (RestrictedStockUnitVestingEvent { date, number }),
    {
        RestrictedStockUnitVestingEvent { date, number }
    }
}

/// The unit total of a sequence of vesting events.
pub open spec fn sum_event_numbers(s: Seq<RestrictedStockUnitVestingEvent>) -> int
    decreases s.len(),
{
    if s.len() == 0 {
        0
    } else {
        sum_event_numbers(s.drop_last()) + s.last().number
    }
}

/// Events ascending by date.
pub open spec fn rsu_events_sorted(s: Seq<RestrictedStockUnitVestingEvent>) -> bool {
    forall|a: int, b: int|
        0 <= a <= b < s.len() ==> date_le(#[trigger] s[a].date, #[trigger] s[b].date)
}

pub proof fn lemma_sum_event_numbers_insert(
    s: Seq<RestrictedStockUnitVestingEvent>,
    i: int,
    e: RestrictedStockUnitVestingEvent,
)
    requires
        0 <= i <= s.len(),
    ensures
        sum_event_numbers(s.insert(i, e)) == sum_event_numbers(s) + e.number,
    decreases s.len(),
{
    if i == s.len() {
        assert(s.insert(i, e) =~= s.push(e));
        assert(s.push(e).drop_last() =~= s);
    } else {
        assert(s.insert(i, e).last() == s.last());
        assert(s.insert(i, e).drop_last() =~= s.drop_last().insert(i, e));
        lemma_sum_event_numbers_insert(s.drop_last(), i, e);
    }
}

pub proof fn lemma_sum_event_numbers_remove(s: Seq<RestrictedStockUnitVestingEvent>, i: int)
    requires
        0 <= i < s.len(),
    ensures
        sum_event_numbers(s.remove(i)) == sum_event_numbers(s) - s[i].number,
    decreases s.len(),
{
    if i == s.len() - 1 {
        assert(s.remove(i) =~= s.drop_last());
    } else {
        assert(s.remove(i).last() == s.last());
        assert(s.remove(i).drop_last() =~= s.drop_last().remove(i));
        lemma_sum_event_numbers_remove(s.drop_last(), i);
    }
}

/// A vesting timetable: the commencement date and the dated events, kept
/// sorted ascending by date.
#[derive(Debug)]
pub struct RestrictedStockUnitVestingSchedule {
    pub commences_on: Date,
    pub events: Vec<RestrictedStockUnitVestingEvent>,
}

impl RestrictedStockUnitVestingSchedule {
    /// Normalizes the events to ascending date order; no event is created,
    /// lost, or altered, so the schedule's unit total is that of the input.
    pub fn new(
        commences_on: Date,
        events: Vec<RestrictedStockUnitVestingEvent>,
    ) -> (r: RestrictedStockUnitVestingSchedule)
        ensures
            r.commences_on == commences_on,
            rsu_events_sorted(r.events@),
            r.events@.to_multiset() == events@.to_multiset(),
            r.events@.len() == events@.len(),
            sum_event_numbers(r.events@) == sum_event_numbers(events@),
    {
        let mut events = events;
        sort_rsu_events(&mut events);
        RestrictedStockUnitVestingSchedule { commences_on, events }
    }
}

/// Insertion sort, ascending by date.
fn sort_rsu_events(v: &mut Vec<RestrictedStockUnitVestingEvent>)
    ensures
        rsu_events_sorted(final(v)@),
        final(v)@.to_multiset() == old(v)@.to_multiset(),
        final(v)@.len() == old(v)@.len(),
        sum_event_numbers(final(v)@) == sum_event_numbers(old(v)@),
{
    broadcast use vstd::seq_lib::group_to_multiset_ensures;

    let n = v.len();
    if n <= 1 {
        return ;
    }
    let mut i: usize = 1;
    while i < n
        invariant
            1 <= i <= n,
            n == v@.len(),
            rsu_events_sorted(v@.take(i as int)),
            v@.to_multiset() == old(v)@.to_multiset(),
            sum_event_numbers(v@) == sum_event_numbers(old(v)@),
        decreases n - i,
    {
        let x = v[i];
        let mut p: usize = 0;
        while p < i && v[p].date.le(&x.date)
            invariant
                0 <= p <= i < n,
                n == v@.len(),
                forall|q: int| 0 <= q < p ==> date_le(#[trigger] v@[q].date, x.date),
            decreases i - p,
        {
            p += 1;
        }
        proof {
            if p < i {
                lemma_date_le_total(v@[p as int].date, x.date);
            }
            lemma_sum_event_numbers_remove(v@, i as int);
            lemma_sum_event_numbers_insert(v@.remove(i as int), p as int, v@[i as int]);
        }
        let ghost before = v@;
        let y = v.remove(i);
        v.insert(p, y);
        proof {
            assert(y == x);
            assert(v@ =~= before.remove(i as int).insert(p as int, x));
            assert forall|a: int, b: int| 0 <= a <= b < i + 1 implies date_le(
                #[trigger] v@[a].date,
                #[trigger] v@[b].date,
            ) by {
                assert(forall|q: int|
                    0 <= q < i ==> before.remove(i as int)[q] == #[trigger] before[q]);
                if p < i {
                    assert(forall|q: int|
                        p <= q < i ==> date_le(x.date, #[trigger] before[q].date));
                }
            }
        }
        i += 1;
    }
    proof {
        assert(v@.take(n as int) =~= v@);
    }
}

impl RestrictedStockUnitVestingSchedule {
    /// Materializes an interval schedule: `duration_years * 12 / interval`
    /// events, each one interval after the previous, starting one interval
    /// after `commences_on`, with the grant's whole unit entitlement
    /// distributed over the events by remainder-carry rounding so that no
    /// unit is created or lost. Fails with `InvalidScheduleDefinition`
    /// exactly when the duration yields no events or the unit price is zero.
    #[verifier::rlimit(50)]
    pub fn to_events(
        commences_on: &Date,
        interval: &VestingInterval,
        duration_years: u32,
        value: &RestrictedStockUnitValue,
    ) -> (r: Result<Vec<RestrictedStockUnitVestingEvent>, EquityError>)
        requires
            commences_on.is_valid(),
            value.total_value_cents >= 0,
            value.grant_price_cents >= 0,
            commences_on.year + duration_years <= 9999,
        ensures
            r is Ok <==> (duration_years > 0 && value.grant_price_cents > 0),
            match r {
                Ok(events) => ({
                    let total = spec_total_units(
                        value.total_value_cents as int,
                        value.grant_price_cents as int,
                    );
                    let count = duration_years as int * 12 / interval.spec_months();
                    let step = interval.spec_months();
                    &&& events@.len() == count
                    &&& forall|i: int|
                        0 <= i < count ==> (#[trigger] events@[i]).number as int == spec_units_at(
                            total,
                            count,
                            i,
                        )
                    &&& forall|i: int|
                        0 <= i < count ==> (#[trigger] events@[i]).date == spec_event_date(
                            *commences_on,
                            step,
                            i,
                        )
                    &&& forall|i: int|
                        0 <= i < count ==> (#[trigger] events@[i]).number >= 0
                            && events@[i].date.is_valid() && date_lt(*commences_on, events@[i].date)
                    &&& forall|a: int, b: int|
                        0 <= a < b < count ==> date_lt(
                            (#[trigger] events@[a]).date,
                            (#[trigger] events@[b]).date,
                        )
                    &&& rsu_events_sorted(events@)
                    &&& sum_event_numbers(events@) == total
                }),
                Err(e) => e == EquityError::InvalidScheduleDefinition && (duration_years == 0
                    || value.grant_price_cents == 0),
            },
    {
        let months = interval.months();
        if duration_years == 0 || value.grant_price_cents == 0 {
            return Err(EquityError::InvalidScheduleDefinition);
        }
        let total_value: u64 = value.total_value_cents as u64;
        let price: u64 = value.grant_price_cents as u64;
        let total_units: u64 = (total_value + price - 1) / price;
        let count: u64 = (duration_years as u64) * 12 / (months as u64);
        let ghost t = total_units as int;
        let ghost c = count as int;
        let ghost base = 12 * commences_on.year + commences_on.month;
        proof {
            assert(t <= value.total_value_cents as int) by {
                assert(value.total_value_cents as int <= value.grant_price_cents as int
                    * value.total_value_cents as int) by (nonlinear_arith)
                    requires
                        value.total_value_cents >= 0,
                        value.grant_price_cents >= 1,
                ;
                vstd::arithmetic::div_mod::lemma_div_multiples_vanish_fancy(
                    value.total_value_cents as int,
                    value.grant_price_cents - 1,
                    value.grant_price_cents as int,
                );
                vstd::arithmetic::div_mod::lemma_div_is_ordered(
                    total_value + price - 1,
                    value.grant_price_cents as int * value.total_value_cents as int
                        + value.grant_price_cents - 1,
                    value.grant_price_cents as int,
                );
            }
            assert(3 * c == 12 * duration_years && c >= 1) by {
                assert(duration_years as int * 12 == 3 * (4 * duration_years as int));
                vstd::arithmetic::div_mod::lemma_div_multiples_vanish(
                    4 * duration_years as int,
                    3,
                );
            }
            assert(0 * t == 0);
            vstd::arithmetic::div_mod::lemma_small_mod(0, c as nat);
            vstd::arithmetic::div_mod::lemma_div_of0(c);
        }
        let mut events: Vec<RestrictedStockUnitVestingEvent> = Vec::new();
        let mut date: Date = *commences_on;
        let mut rem: u64 = 0;
        let mut k: u64 = 0;
        while k < count
            invariant
                0 <= k <= count,
                events@.len() == k as int,
                date.is_valid(),
                k == 0 ==> date == *commences_on,
                k > 0 ==> date == spec_event_date(*commences_on, 3, k - 1),
                12 * date.year + date.month == base + 3 * k,
                rem as int == (k as int * t) % c,
                rem < count,
                sum_event_numbers(events@) == (k as int * t) / c,
                forall|i: int|
                    0 <= i < k ==> (#[trigger] events@[i]).number as int == spec_units_at(t, c, i)
                        && events@[i].number >= 0,
                forall|i: int|
                    0 <= i < k ==> (#[trigger] events@[i]).date == spec_event_date(
                        *commences_on,
                        3,
                        i,
                    ) && events@[i].date.is_valid() && 12 * events@[i].date.year
                        + events@[i].date.month == base + 3 * (i + 1),
            decreases count - k,
        {
            proof {
                // the next three-month step stays within the supported years
                vstd::arithmetic::div_mod::lemma_hoist_over_denominator(
                    date.month - 1 + 3,
                    date.year as int,
                    12,
                );
                assert(date.month - 1 + 3 + date.year * 12 <= 12 * (commences_on.year
                    + duration_years) + 11);
                vstd::arithmetic::div_mod::lemma_div_is_ordered(
                    date.month - 1 + 3 + date.year * 12,
                    12 * (commences_on.year + duration_years as int) + 11,
                    12,
                );
                vstd::arithmetic::div_mod::lemma_div_multiples_vanish_fancy(
                    commences_on.year + duration_years as int,
                    11,
                    12,
                );
                crate::date::lemma_add_months_linear(date, 3);
            }
            date = date.add_months(3);
            proof {
                if k > 0 {
                    assert(spec_event_date(*commences_on, 3, k as int) == spec_add_months(
                        spec_event_date(*commences_on, 3, k as int - 1),
                        3,
                    ));
                }
            }
            let x: u64 = rem + total_units;
            let units: u64 = x / count;
            proof {
                let kt = k as int * t;
                let q = kt / c;
                vstd::arithmetic::div_mod::lemma_fundamental_div_mod(kt, c);
                assert(kt == c * q + rem);
                assert((k as int + 1) * t == k as int * t + t) by (nonlinear_arith);
                assert(c * q == q * c) by (nonlinear_arith);
                assert((k as int + 1) * t == x + q * c);
                vstd::arithmetic::div_mod::lemma_hoist_over_denominator(x as int, q, c as nat);
                assert(x as int / c + q == ((k as int + 1) * t) / c);
                vstd::arithmetic::div_mod::lemma_fundamental_div_mod(x as int, c);
                assert((q + x as int / c) * c + x as int % c == (k as int + 1) * t) by (nonlinear_arith)
                    requires
                        x as int == c * (x as int / c) + x as int % c,
                        (k as int + 1) * t == x + q * c,
                ;
                vstd::arithmetic::div_mod::lemma_mod_division_less_than_divisor(x as int, c);
                vstd::arithmetic::div_mod::lemma_fundamental_div_mod_converse_mod(
                    (k as int + 1) * t,
                    c,
                    q + x as int / c,
                    x as int % c,
                );
                // each event's unit count is at most the whole entitlement
                assert((x as int) < c * (t + 1)) by (nonlinear_arith)
                    requires
                        x as int <= c - 1 + t,
                        c >= 1,
                        t >= 0,
                ;
                vstd::arithmetic::div_mod::lemma_multiply_divide_lt(x as int, c, t + 1);
                assert(units as int == spec_units_at(t, c, k as int));
            }
            rem = x % count;
            let ev = RestrictedStockUnitVestingEvent { date, number: units as i32 };
            proof {
                assert(events@.push(ev).drop_last() =~= events@);
            }
            events.push(ev);
            k += 1;
        }
        proof {
            assert(sum_event_numbers(events@) == t) by {
                assert(k as int * t == c * t);
                vstd::arithmetic::div_mod::lemma_div_multiples_vanish(t, c);
            }
            assert forall|a: int, b: int| 0 <= a < b < c implies date_lt(
                (#[trigger] events@[a]).date,
                (#[trigger] events@[b]).date,
            ) by {
                assert(events@[a].date.is_valid() && events@[b].date.is_valid());
            }
            assert forall|i: int| 0 <= i < c implies date_lt(
                *commences_on,
                (#[trigger] events@[i]).date,
            ) by {
                assert(events@[i].date.is_valid());
            }
        }
        Ok(events)
    }
}

/// Materialization is deterministic: two event lists produced from the same
/// inputs (the same entitlement, event count, commencement, and step) are
/// identical, event by event — the remainder-carry rounding leaves nothing
/// to chance.
pub proof fn lemma_materialization_deterministic(
    e1: Seq<RestrictedStockUnitVestingEvent>,
    e2: Seq<RestrictedStockUnitVestingEvent>,
    commences_on: Date,
    step: int,
    total_units: int,
    count: int,
)
    requires
        e1.len() == count,
        e2.len() == count,
        forall|i: int|
            0 <= i < count ==> (#[trigger] e1[i]).number as int == spec_units_at(
                total_units,
                count,
                i,
            ) && e1[i].date == spec_event_date(commences_on, step, i),
        forall|i: int|
            0 <= i < count ==> (#[trigger] e2[i]).number as int == spec_units_at(
                total_units,
                count,
                i,
            ) && e2[i].date == spec_event_date(commences_on, step, i),
    ensures
        e1 == e2,
{
    assert forall|i: int| 0 <= i < count implies e1[i] == e2[i] by {
        assert(e1[i].number as int == e2[i].number as int);
    }
    assert(e1 =~= e2);
}

/// A restricted stock unit grant: identity, value terms, and a materialized
/// vesting schedule.
#[derive(Debug)]
pub struct RestrictedStockUnitGrant {
    pub name: String,
    pub granted_on: Date,
    pub value: RestrictedStockUnitValue,
    pub vesting_schedule: RestrictedStockUnitVestingSchedule,
}

impl RestrictedStockUnitGrant {
    /// The schedule hands out exactly the unit entitlement that the grant's
    /// value terms state. Where the schedule is materialized this holds by
    /// construction: `to_events` proves its events sum to the entitlement,
    /// and the schedule constructor preserves that sum while sorting. A
    /// grant built from an explicit event list instead *defines* its
    /// entitlement through the list (`actual_total_units`), so no
    /// construction-time cross-check applies to it, and `new` stores its
    /// arguments unchanged.
    pub open spec fn unit_exact(self) -> bool {
        sum_event_numbers(self.vesting_schedule.events@) == spec_total_units(
            self.value.total_value_cents as int,
            self.value.grant_price_cents as int,
        )
    }

    pub fn new(
        name: String,
        granted_on: Date,
        value: RestrictedStockUnitValue,
        vesting_schedule: RestrictedStockUnitVestingSchedule,
    ) -> (r: RestrictedStockUnitGrant)
        ensures
            r.name == name,
            r.granted_on == granted_on,
            r.value == value,
            r.vesting_schedule == vesting_schedule,
            r.unit_exact() == (sum_event_numbers(vesting_schedule.events@) == spec_total_units(
                value.total_value_cents as int,
                value.grant_price_cents as int,
            )),
    {
        RestrictedStockUnitGrant { name, granted_on, value, vesting_schedule }
    }

    /// The number of units the schedule actually hands out: the sum of all
    /// event unit counts.
    pub fn actual_total_units(&self) -> (r: i32)
        requires
            i32::MIN <= sum_event_numbers(self.vesting_schedule.events@) <= i32::MAX,
            forall|i: int|
                0 <= i < self.vesting_schedule.events@.len()
                    ==> (#[trigger] self.vesting_schedule.events@[i]).number >= 0,
        ensures
            r as int == sum_event_numbers(self.vesting_schedule.events@),
    {
        let n = self.vesting_schedule.events.len();
        let mut total: i32 = 0;
        let mut i: usize = 0;
        while i < n
            invariant
                0 <= i <= n,
                n == self.vesting_schedule.events@.len(),
                total as int == sum_event_numbers(self.vesting_schedule.events@.take(i as int)),
                i32::MIN <= sum_event_numbers(self.vesting_schedule.events@) <= i32::MAX,
                forall|j: int|
                    0 <= j < n ==> (#[trigger] self.vesting_schedule.events@[j]).number >= 0,
            decreases n - i,
        {
            proof {
                let ev = self.vesting_schedule.events@;
                assert(ev.take(i + 1).drop_last() =~= ev.take(i as int));
                lemma_sum_prefix_bounds(ev, i + 1);
            }
            total = total + self.vesting_schedule.events[i].number;
            i += 1;
        }
        proof {
            assert(self.vesting_schedule.events@.take(n as int) =~= self.vesting_schedule.events@);
        }
        total
    }
}

/// The spacing between consecutive events of an interval schedule.
#[derive(Clone, Copy, Debug, PartialEq, Eq, Structural)]
pub enum VestingInterval {
    Quarterly,
}

impl VestingInterval {
    pub open spec fn spec_months(self) -> int {
        match self {
            VestingInterval::Quarterly => 3,
        }
    }

    pub fn months(&self) -> (r: u32)
        ensures
            r as int == self.spec_months(),
            1 <= r <= 12,
    {
        match self {
            VestingInterval::Quarterly => 3,
        }
    }
}

/// The grant's whole unit entitlement: total value over unit price, rounded
/// up to the next whole unit.
pub open spec fn spec_total_units(total_value_cents: int, grant_price_cents: int) -> int {
    (total_value_cents + grant_price_cents - 1) / grant_price_cents
}

/// Unit count of the i-th event (0-based) under remainder-carry rounding:
/// each event receives the floor of its ideal real-valued share plus the
/// carried fraction, so the first i+1 events together hold exactly
/// `floor((i+1) * total / count)` units.
pub open spec fn spec_units_at(total_units: int, count_events: int, i: int) -> int {
    ((i + 1) * total_units) / count_events - (i * total_units) / count_events
}

/// Unit counts of the first `k` events under remainder-carry rounding.
pub open spec fn spec_units_prefix(total_units: int, count_events: int, k: int) -> int
    decreases k,
{
    if k <= 0 {
        0
    } else {
        spec_units_prefix(total_units, count_events, k - 1) + spec_units_at(
            total_units,
            count_events,
            k - 1,
        )
    }
}

/// The carried remainders telescope: the first `k` events together hold
/// exactly the floor of `k` ideal shares.
proof fn lemma_units_prefix_closed(total_units: int, count_events: int, k: int)
    requires
        count_events >= 1,
        0 <= k,
    ensures
        spec_units_prefix(total_units, count_events, k) == (k * total_units) / count_events,
    decreases k,
{
    if k == 0 {
        assert(0 * total_units == 0);
        vstd::arithmetic::div_mod::lemma_div_of0(count_events);
    } else {
        lemma_units_prefix_closed(total_units, count_events, k - 1);
        assert((k - 1 + 1) * total_units == k * total_units);
    }
}

/// Unit conservation: for any entitlement and any event count, the
/// remainder-carry distribution hands out exactly the whole entitlement —
/// the unit counts of all `count_events` events sum to `total_units`.
pub proof fn lemma_unit_conservation(total_units: int, count_events: int)
    requires
        count_events >= 1,
    ensures
        spec_units_prefix(total_units, count_events, count_events) == total_units,
{
    lemma_units_prefix_closed(total_units, count_events, count_events);
    vstd::arithmetic::div_mod::lemma_div_multiples_vanish(total_units, count_events);
}

/// Date of the i-th event (0-based): the commencement advanced i+1 times by
/// `step` months, each step clamping the day to the target month's length.
pub open spec fn spec_event_date(commences_on: Date, step: int, i: int) -> Date
    decreases i,
{
    if i <= 0 {
        spec_add_months(commences_on, step)
    } else {
        spec_add_months(spec_event_date(commences_on, step, i - 1), step)
    }
}

/// With non-negative unit counts, every prefix total lies between zero and
/// the whole sum.
pub proof fn lemma_sum_prefix_bounds(s: Seq<RestrictedStockUnitVestingEvent>, k: int)
    requires
        0 <= k <= s.len(),
        forall|i: int| 0 <= i < s.len() ==> (#[trigger] s[i]).number >= 0,
    ensures
        0 <= sum_event_numbers(s.take(k)) <= sum_event_numbers(s),
    decreases s.len(),
{
    if s.len() > 0 {
        if k == s.len() {
            assert(s.take(k) =~= s);
            lemma_sum_prefix_bounds(s.drop_last(), k - 1);
            assert(s.drop_last().take(k - 1) =~= s.drop_last());
        } else {
            assert(s.take(k) =~= s.drop_last().take(k));
            lemma_sum_prefix_bounds(s.drop_last(), k);
        }
    }
}

} // verus!
