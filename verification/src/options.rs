//! Stock option grants: strike-priced unit bundles with explicit vesting
//! events. Option value is the signed spread between the share price at
//! realization time and the grant's exercise price.
use vstd::prelude::*;

use crate::date::{date_le, lemma_date_le_total, Date};

verus! {

/// Value terms of an option grant: the per-unit exercise (strike) price in
/// minor currency units and the number of units granted.
#[derive(Clone, Copy, Debug, PartialEq, Eq, Structural)]
pub struct OptionGrantValue {
    pub exercise_price: i32,
    pub number: i32,
}

impl OptionGrantValue {
    pub fn new(exercise_price: i32, number: i32) -> (r: OptionGrantValue)
        ensures
            r == (OptionGrantValue { exercise_price, number }),
    {
        OptionGrantValue { exercise_price, number }
    }
}

/// `number` option units vesting on `date`.
#[derive(Clone, Copy, Debug, PartialEq, Eq, Structural)]
pub struct OptionGrantVestingEvent {
    pub date: Date,
    pub number: i32,
}

impl OptionGrantVestingEvent {
    pub fn new(date: Date, number: i32) -> (r: OptionGrantVestingEvent)
        ensures
            r == (OptionGrantVestingEvent { date, number }),
    {
        OptionGrantVestingEvent { date, number }
    }
}

/// Events ascending by date.
pub open spec fn option_events_sorted(s: Seq<OptionGrantVestingEvent>) -> bool {
    forall|a: int, b: int|
        0 <= a <= b < s.len() ==> date_le(#[trigger] s[a].date, #[trigger] s[b].date)
}

/// A vesting timetable for an option grant, kept sorted ascending by date.
#[derive(Debug)]
pub struct OptionGrantVestingSchedule {
    pub commences_on: Date,
    pub events: Vec<OptionGrantVestingEvent>,
}

impl OptionGrantVestingSchedule {
    /// Normalizes the events to ascending date order.
    pub fn new(
        commences_on: Date,
        events: Vec<OptionGrantVestingEvent>,
    ) -> (r: OptionGrantVestingSchedule)
        ensures
            r.commences_on == commences_on,
            option_events_sorted(r.events@),
            r.events@.to_multiset() == events@.to_multiset(),
            r.events@.len() == events@.len(),
    {
        let mut events = events;
        sort_option_events(&mut events);
        OptionGrantVestingSchedule { commences_on, events }
    }
}

/// Insertion sort, ascending by date.
fn sort_option_events(v: &mut Vec<OptionGrantVestingEvent>)
    ensures
        option_events_sorted(final(v)@),
        final(v)@.to_multiset() == old(v)@.to_multiset(),
        final(v)@.len() == old(v)@.len(),
{
    broadcast use vstd::seq_lib::group_to_multiset_ensures;

    let n = v.len();
    if n <= 1 {
        return ;
    }
    let mut i: usize = 1;
    while i < n
        invariant
            1 <= i <= n,
            n == v@.len(),
            option_events_sorted(v@.take(i as int)),
            v@.to_multiset() == old(v)@.to_multiset(),
        decreases n - i,
    {
        let x = v[i];
        let mut p: usize = 0;
        while p < i && v[p].date.le(&x.date)
            invariant
                0 <= p <= i < n,
                n == v@.len(),
                forall|q: int| 0 <= q < p ==> date_le(#[trigger] v@[q].date, x.date),
            decreases i - p,
        {
            p += 1;
        }
        proof {
            if p < i {
                lemma_date_le_total(v@[p as int].date, x.date);
            }
        }
        let ghost before = v@;
        let y = v.remove(i);
        v.insert(p, y);
        proof {
            assert(y == x);
            assert(v@ =~= before.remove(i as int).insert(p as int, x));
            assert forall|a: int, b: int| 0 <= a <= b < i + 1 implies date_le(
                #[trigger] v@[a].date,
                #[trigger] v@[b].date,
            ) by {
                assert(forall|q: int|
                    0 <= q < i ==> before.remove(i as int)[q] == #[trigger] before[q]);
                if p < i {
                    assert(forall|q: int|
                        p <= q < i ==> date_le(x.date, #[trigger] before[q].date));
                }
            }
        }
        i += 1;
    }
    proof {
        assert(v@.take(n as int) =~= v@);
    }
}

/// A stock option grant: identity, strike terms, and its vesting schedule.
#[derive(Debug)]
pub struct OptionGrant {
    pub name: String,
    pub granted_on: Date,
    pub value: OptionGrantValue,
    pub vesting_schedule: OptionGrantVestingSchedule,
}

impl OptionGrant {
    pub fn new(
        name: String,
        granted_on: Date,
        value: OptionGrantValue,
        vesting_schedule: OptionGrantVestingSchedule,
    ) -> (r: OptionGrant)
        ensures
            r.name == name,
            r.granted_on == granted_on,
            r.value == value,
            r.vesting_schedule == vesting_schedule,
    {
        OptionGrant { name, granted_on, value, vesting_schedule }
    }
}

} // verus!
