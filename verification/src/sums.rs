//! Range sums over grants and vesting events: the closed forms that the
//! daily and quarterly engines' contracts are stated in, with the lemmas
//! that split a range at a day boundary and bound the sums.
use vstd::prelude::*;

use crate::date::{date_le, date_lt, lemma_date_le_total, lemma_next_day_is_successor, spec_next_day, Date};
use crate::options::OptionGrant;
use crate::rsu::{sum_event_numbers, RestrictedStockUnitGrant, RestrictedStockUnitVestingEvent};
use crate::options::OptionGrantVestingEvent;

verus! {

/// The unit total of a sequence of option vesting events.
pub open spec fn sum_option_event_numbers(s: Seq<OptionGrantVestingEvent>) -> int
    decreases s.len(),
{
    if s.len() == 0 {
        0
    } else {
        sum_option_event_numbers(s.drop_last()) + s.last().number
    }
}

/// Units vested by `events` dated within `[lo, hi]`.
pub open spec fn rsu_units_between(
    events: Seq<RestrictedStockUnitVestingEvent>,
    lo: Date,
    hi: Date,
) -> int
    decreases events.len(),
{
    if events.len() == 0 {
        0
    } else {
        rsu_units_between(events.drop_last(), lo, hi) + if date_le(lo, events.last().date)
            && date_le(events.last().date, hi) {
            events.last().number as int
        } else {
            0
        }
    }
}

/// Units vested within `[lo, hi]` across all RSU grants.
pub open spec fn rsu_grants_units_between(
    grants: Seq<RestrictedStockUnitGrant>,
    lo: Date,
    hi: Date,
) -> int
    decreases grants.len(),
{
    if grants.len() == 0 {
        0
    } else {
        rsu_grants_units_between(grants.drop_last(), lo, hi) + rsu_units_between(
            grants.last().vesting_schedule.events@,
            lo,
            hi,
        )
    }
}

/// Whole unit entitlements of the RSU grants whose grant date lies in
/// `[lo, hi]`: what the daily engine has moved into the unvested balance.
pub open spec fn rsu_grants_entitlement_between(
    grants: Seq<RestrictedStockUnitGrant>,
    lo: Date,
    hi: Date,
) -> int
    decreases grants.len(),
{
    if grants.len() == 0 {
        0
    } else {
        rsu_grants_entitlement_between(grants.drop_last(), lo, hi) + if date_le(
            lo,
            grants.last().granted_on,
        ) && date_le(grants.last().granted_on, hi) {
            sum_event_numbers(grants.last().vesting_schedule.events@)
        } else {
            0
        }
    }
}

/// Units vested by option `events` dated within `[lo, hi]`.
pub open spec fn option_units_between(
    events: Seq<OptionGrantVestingEvent>,
    lo: Date,
    hi: Date,
) -> int
    decreases events.len(),
{
    if events.len() == 0 {
        0
    } else {
        option_units_between(events.drop_last(), lo, hi) + if date_le(lo, events.last().date)
            && date_le(events.last().date, hi) {
            events.last().number as int
        } else {
            0
        }
    }
}

/// Option units vested within `[lo, hi]` across all option grants.
pub open spec fn option_grants_units_between(
    grants: Seq<OptionGrant>,
    lo: Date,
    hi: Date,
) -> int
    decreases grants.len(),
{
    if grants.len() == 0 {
        0
    } else {
        option_grants_units_between(grants.drop_last(), lo, hi) + option_units_between(
            grants.last().vesting_schedule.events@,
            lo,
            hi,
        )
    }
}

/// Strike-price weight of the option units vested within `[lo, hi]`: the sum
/// over grants of vested units times that grant's exercise price.
pub open spec fn option_grants_weight_between(
    grants: Seq<OptionGrant>,
    lo: Date,
    hi: Date,
) -> int
    decreases grants.len(),
{
    if grants.len() == 0 {
        0
    } else {
        option_grants_weight_between(grants.drop_last(), lo, hi) + option_units_between(
            grants.last().vesting_schedule.events@,
            lo,
            hi,
        ) * grants.last().value.exercise_price
    }
}

/// Signed value at price `p` of the option units vested within `[lo, hi]`:
/// each grant's vested units times the spread `p` minus its exercise price.
pub open spec fn option_grants_value_between(
    grants: Seq<OptionGrant>,
    lo: Date,
    hi: Date,
    p: int,
) -> int
    decreases grants.len(),
{
    if grants.len() == 0 {
        0
    } else {
        option_grants_value_between(grants.drop_last(), lo, hi, p) + option_units_between(
            grants.last().vesting_schedule.events@,
            lo,
            hi,
        ) * (p - grants.last().value.exercise_price)
    }
}

/// Granted option units of the grants whose grant date lies in `[lo, hi]`.
pub open spec fn option_grants_entitlement_units_between(
    grants: Seq<OptionGrant>,
    lo: Date,
    hi: Date,
) -> int
    decreases grants.len(),
{
    if grants.len() == 0 {
        0
    } else {
        option_grants_entitlement_units_between(grants.drop_last(), lo, hi) + if date_le(
            lo,
            grants.last().granted_on,
        ) && date_le(grants.last().granted_on, hi) {
            grants.last().value.number as int
        } else {
            0
        }
    }
}

/// Strike-price weight of the granted option units within `[lo, hi]`.
pub open spec fn option_grants_entitlement_weight_between(
    grants: Seq<OptionGrant>,
    lo: Date,
    hi: Date,
) -> int
    decreases grants.len(),
{
    if grants.len() == 0 {
        0
    } else {
        option_grants_entitlement_weight_between(grants.drop_last(), lo, hi) + if date_le(
            lo,
            grants.last().granted_on,
        ) && date_le(grants.last().granted_on, hi) {
            grants.last().value.number as int * grants.last().value.exercise_price
        } else {
            0
        }
    }
}

/// Signed value at price `p` of the granted option units within `[lo, hi]`.
pub open spec fn option_grants_entitlement_value_between(
    grants: Seq<OptionGrant>,
    lo: Date,
    hi: Date,
    p: int,
) -> int
    decreases grants.len(),
{
    if grants.len() == 0 {
        0
    } else {
        option_grants_entitlement_value_between(grants.drop_last(), lo, hi, p) + if date_le(
            lo,
            grants.last().granted_on,
        ) && date_le(grants.last().granted_on, hi) {
            grants.last().value.number as int * (p - grants.last().value.exercise_price)
        } else {
            0
        }
    }
}

/// Whole unit mass of the RSU grants: the sum of every event unit count.
pub open spec fn rsu_total_mass(grants: Seq<RestrictedStockUnitGrant>) -> int
    decreases grants.len(),
{
    if grants.len() == 0 {
        0
    } else {
        rsu_total_mass(grants.drop_last()) + sum_event_numbers(
            grants.last().vesting_schedule.events@,
        )
    }
}

/// Whole unit mass of the option vesting events.
pub open spec fn option_event_mass(grants: Seq<OptionGrant>) -> int
    decreases grants.len(),
{
    if grants.len() == 0 {
        0
    } else {
        option_event_mass(grants.drop_last()) + sum_option_event_numbers(
            grants.last().vesting_schedule.events@,
        )
    }
}

/// Whole unit mass of the option grants' entitlements.
pub open spec fn option_entitlement_mass(grants: Seq<OptionGrant>) -> int
    decreases grants.len(),
{
    if grants.len() == 0 {
        0
    } else {
        option_entitlement_mass(grants.drop_last()) + grants.last().value.number
    }
}

/// A day range `[lo, next_day(last)]` splits into `[lo, last]` plus the
/// single new day, for RSU event sums.
pub proof fn lemma_rsu_units_between_step(
    events: Seq<RestrictedStockUnitVestingEvent>,
    lo: Date,
    last: Date,
    c: Date,
)
    requires
        last.is_valid(),
        c == spec_next_day(last),
        date_le(lo, last),
        forall|i: int| 0 <= i < events.len() ==> (#[trigger] events[i]).date.is_valid(),
    ensures
        rsu_units_between(events, lo, c) == rsu_units_between(events, lo, last)
            + rsu_units_between(events, c, c),
    decreases events.len(),
{
    crate::date::lemma_next_day_gt(last);
    if events.len() > 0 {
        lemma_rsu_units_between_step(events.drop_last(), lo, last, c);
        let d = events.last().date;
        if date_le(d, c) && !date_le(d, last) {
            lemma_date_le_total(d, last);
            lemma_next_day_is_successor(last, d);
            lemma_date_le_total(d, c);
        }
    }
}

/// As `lemma_rsu_units_between_step`, across all RSU grants.
pub proof fn lemma_rsu_grants_units_between_step(
    grants: Seq<RestrictedStockUnitGrant>,
    lo: Date,
    last: Date,
    c: Date,
)
    requires
        last.is_valid(),
        c == spec_next_day(last),
        date_le(lo, last),
        forall|g: int, i: int|
            0 <= g < grants.len() && 0 <= i < grants[g].vesting_schedule.events@.len() ==> (
            #[trigger] grants[g].vesting_schedule.events@[i]).date.is_valid(),
    ensures
        rsu_grants_units_between(grants, lo, c) == rsu_grants_units_between(grants, lo, last)
            + rsu_grants_units_between(grants, c, c),
    decreases grants.len(),
{
    if grants.len() > 0 {
        lemma_rsu_grants_units_between_step(grants.drop_last(), lo, last, c);
        assert(forall|i: int|
            0 <= i < grants.last().vesting_schedule.events@.len() ==> (
            #[trigger] grants.last().vesting_schedule.events@[i]).date.is_valid()) by {
            assert(grants.last() == grants[grants.len() - 1]);
        }
        lemma_rsu_units_between_step(grants.last().vesting_schedule.events@, lo, last, c);
    }
}

/// As `lemma_rsu_units_between_step`, for the granted-on entitlement sum.
pub proof fn lemma_rsu_grants_entitlement_step(
    grants: Seq<RestrictedStockUnitGrant>,
    lo: Date,
    last: Date,
    c: Date,
)
    requires
        last.is_valid(),
        c == spec_next_day(last),
        date_le(lo, last),
        forall|g: int| 0 <= g < grants.len() ==> (#[trigger] grants[g]).granted_on.is_valid(),
    ensures
        rsu_grants_entitlement_between(grants, lo, c) == rsu_grants_entitlement_between(
            grants,
            lo,
            last,
        ) + rsu_grants_entitlement_between(grants, c, c),
    decreases grants.len(),
{
    crate::date::lemma_next_day_gt(last);
    if grants.len() > 0 {
        lemma_rsu_grants_entitlement_step(grants.drop_last(), lo, last, c);
        let d = grants.last().granted_on;
        assert(d == grants[grants.len() - 1].granted_on);
        if date_le(d, c) && !date_le(d, last) {
            lemma_date_le_total(d, last);
            lemma_next_day_is_successor(last, d);
            lemma_date_le_total(d, c);
        }
    }
}

/// As `lemma_rsu_units_between_step`, for option event sums.
pub proof fn lemma_option_units_between_step(
    events: Seq<OptionGrantVestingEvent>,
    lo: Date,
    last: Date,
    c: Date,
)
    requires
        last.is_valid(),
        c == spec_next_day(last),
        date_le(lo, last),
        forall|i: int| 0 <= i < events.len() ==> (#[trigger] events[i]).date.is_valid(),
    ensures
        option_units_between(events, lo, c) == option_units_between(events, lo, last)
            + option_units_between(events, c, c),
    decreases events.len(),
{
    crate::date::lemma_next_day_gt(last);
    if events.len() > 0 {
        lemma_option_units_between_step(events.drop_last(), lo, last, c);
        let d = events.last().date;
        if date_le(d, c) && !date_le(d, last) {
            lemma_date_le_total(d, last);
            lemma_next_day_is_successor(last, d);
            lemma_date_le_total(d, c);
        }
    }
}

/// As `lemma_rsu_units_between_step`, for option unit and weight sums
/// across all option grants.
pub proof fn lemma_option_grants_between_step(
    grants: Seq<OptionGrant>,
    lo: Date,
    last: Date,
    c: Date,
)
    requires
        last.is_valid(),
        c == spec_next_day(last),
        date_le(lo, last),
        forall|g: int, i: int|
            0 <= g < grants.len() && 0 <= i < grants[g].vesting_schedule.events@.len() ==> (
            #[trigger] grants[g].vesting_schedule.events@[i]).date.is_valid(),
    ensures
        option_grants_units_between(grants, lo, c) == option_grants_units_between(
            grants,
            lo,
            last,
        ) + option_grants_units_between(grants, c, c),
        option_grants_weight_between(grants, lo, c) == option_grants_weight_between(
            grants,
            lo,
            last,
        ) + option_grants_weight_between(grants, c, c),
    decreases grants.len(),
{
    if grants.len() > 0 {
        assert forall|g: int, i: int|
            0 <= g < grants.drop_last().len() && 0 <= i
                < grants.drop_last()[g].vesting_schedule.events@.len() implies (
        #[trigger] grants.drop_last()[g].vesting_schedule.events@[i]).date.is_valid() by {
            assert(grants.drop_last()[g] == grants[g]);
        }
        lemma_option_grants_between_step(grants.drop_last(), lo, last, c);
        assert(forall|i: int|
            0 <= i < grants.last().vesting_schedule.events@.len() ==> (
            #[trigger] grants.last().vesting_schedule.events@[i]).date.is_valid()) by {
            assert(grants.last() == grants[grants.len() - 1]);
        }
        lemma_option_units_between_step(grants.last().vesting_schedule.events@, lo, last, c);
        let ev = grants.last().vesting_schedule.events@;
        let x = grants.last().value.exercise_price as int;
        assert((option_units_between(ev, lo, last) + option_units_between(ev, c, c)) * x
            == option_units_between(ev, lo, last) * x + option_units_between(ev, c, c) * x)
            by (nonlinear_arith);
    }
}

/// As `lemma_rsu_grants_entitlement_step`, for option entitlement unit and
/// weight sums.
pub proof fn lemma_option_grants_entitlement_step(
    grants: Seq<OptionGrant>,
    lo: Date,
    last: Date,
    c: Date,
)
    requires
        last.is_valid(),
        c == spec_next_day(last),
        date_le(lo, last),
        forall|g: int| 0 <= g < grants.len() ==> (#[trigger] grants[g]).granted_on.is_valid(),
    ensures
        option_grants_entitlement_units_between(grants, lo, c)
            == option_grants_entitlement_units_between(grants, lo, last)
            + option_grants_entitlement_units_between(grants, c, c),
        option_grants_entitlement_weight_between(grants, lo, c)
            == option_grants_entitlement_weight_between(grants, lo, last)
            + option_grants_entitlement_weight_between(grants, c, c),
    decreases grants.len(),
{
    crate::date::lemma_next_day_gt(last);
    if grants.len() > 0 {
        lemma_option_grants_entitlement_step(grants.drop_last(), lo, last, c);
        let d = grants.last().granted_on;
        assert(d == grants[grants.len() - 1].granted_on);
        if date_le(d, c) && !date_le(d, last) {
            lemma_date_le_total(d, last);
            lemma_next_day_is_successor(last, d);
            lemma_date_le_total(d, c);
        }
    }
}

/// The signed option value distributes over price and strike weight:
/// summed vested units times the spread equal the price times the unit sum
/// minus the strike weight.
pub proof fn lemma_option_value_distributes(grants: Seq<OptionGrant>, lo: Date, hi: Date, p: int)
    ensures
        option_grants_value_between(grants, lo, hi, p) == p * option_grants_units_between(
            grants,
            lo,
            hi,
        ) - option_grants_weight_between(grants, lo, hi),
    decreases grants.len(),
{
    if grants.len() > 0 {
        lemma_option_value_distributes(grants.drop_last(), lo, hi, p);
        let u = option_units_between(grants.last().vesting_schedule.events@, lo, hi);
        let x = grants.last().value.exercise_price as int;
        assert(u * (p - x) == p * u - u * x) by (nonlinear_arith);
        assert(p * (option_grants_units_between(grants.drop_last(), lo, hi) + u) == p
            * option_grants_units_between(grants.drop_last(), lo, hi) + p * u) by (nonlinear_arith);
    }
}

/// As `lemma_option_value_distributes`, for the entitlement sums.
pub proof fn lemma_option_entitlement_value_distributes(
    grants: Seq<OptionGrant>,
    lo: Date,
    hi: Date,
    p: int,
)
    ensures
        option_grants_entitlement_value_between(grants, lo, hi, p) == p
            * option_grants_entitlement_units_between(grants, lo, hi)
            - option_grants_entitlement_weight_between(grants, lo, hi),
    decreases grants.len(),
{
    if grants.len() > 0 {
        lemma_option_entitlement_value_distributes(grants.drop_last(), lo, hi, p);
        let g = grants.last();
        let n = g.value.number as int;
        let x = g.value.exercise_price as int;
        if date_le(lo, g.granted_on) && date_le(g.granted_on, hi) {
            assert(n * (p - x) == p * n - n * x) by (nonlinear_arith);
        }
        assert(p * (option_grants_entitlement_units_between(grants.drop_last(), lo, hi) + (
        if date_le(lo, g.granted_on) && date_le(g.granted_on, hi) {
            n
        } else {
            0
        })) == p * option_grants_entitlement_units_between(grants.drop_last(), lo, hi) + p * (
        if date_le(lo, g.granted_on) && date_le(g.granted_on, hi) {
            n
        } else {
            0
        })) by (nonlinear_arith);
    }
}

/// Every RSU event hands out a non-negative unit count.
pub open spec fn rsu_numbers_nonneg(grants: Seq<RestrictedStockUnitGrant>) -> bool {
    forall|g: int, i: int|
        0 <= g < grants.len() && 0 <= i < grants[g].vesting_schedule.events@.len() ==> (
        #[trigger] grants[g].vesting_schedule.events@[i]).number >= 0
}

/// Every option event and every option grant hands out a non-negative unit
/// count.
pub open spec fn option_numbers_nonneg(grants: Seq<OptionGrant>) -> bool {
    &&& forall|g: int, i: int|
        0 <= g < grants.len() && 0 <= i < grants[g].vesting_schedule.events@.len() ==> (
        #[trigger] grants[g].vesting_schedule.events@[i]).number >= 0
    &&& forall|g: int| 0 <= g < grants.len() ==> (#[trigger] grants[g]).value.number >= 0
}

pub proof fn lemma_sum_event_numbers_nonneg(s: Seq<RestrictedStockUnitVestingEvent>)
    requires
        forall|i: int| 0 <= i < s.len() ==> (#[trigger] s[i]).number >= 0,
    ensures
        sum_event_numbers(s) >= 0,
    decreases s.len(),
{
    if s.len() > 0 {
        lemma_sum_event_numbers_nonneg(s.drop_last());
    }
}

pub proof fn lemma_sum_option_event_numbers_nonneg(s: Seq<OptionGrantVestingEvent>)
    requires
        forall|i: int| 0 <= i < s.len() ==> (#[trigger] s[i]).number >= 0,
    ensures
        sum_option_event_numbers(s) >= 0,
    decreases s.len(),
{
    if s.len() > 0 {
        lemma_sum_option_event_numbers_nonneg(s.drop_last());
    }
}

/// With non-negative unit counts, a range sum lies between zero and the
/// events' whole unit total.
pub proof fn lemma_rsu_units_between_bounds(
    events: Seq<RestrictedStockUnitVestingEvent>,
    lo: Date,
    hi: Date,
)
    requires
        forall|i: int| 0 <= i < events.len() ==> (#[trigger] events[i]).number >= 0,
    ensures
        0 <= rsu_units_between(events, lo, hi) <= sum_event_numbers(events),
    decreases events.len(),
{
    if events.len() > 0 {
        lemma_rsu_units_between_bounds(events.drop_last(), lo, hi);
    }
}

pub proof fn lemma_option_units_between_bounds(
    events: Seq<OptionGrantVestingEvent>,
    lo: Date,
    hi: Date,
)
    requires
        forall|i: int| 0 <= i < events.len() ==> (#[trigger] events[i]).number >= 0,
    ensures
        0 <= option_units_between(events, lo, hi) <= sum_option_event_numbers(events),
    decreases events.len(),
{
    if events.len() > 0 {
        lemma_option_units_between_bounds(events.drop_last(), lo, hi);
    }
}

/// Bounds for every daily running balance: unit sums lie between zero and
/// the corresponding whole unit mass, strike weights within that mass times
/// the largest expressible price.
pub proof fn lemma_rsu_grant_sums_bounds(
    grants: Seq<RestrictedStockUnitGrant>,
    lo: Date,
    hi: Date,
)
    requires
        rsu_numbers_nonneg(grants),
    ensures
        0 <= rsu_grants_units_between(grants, lo, hi) <= rsu_total_mass(grants),
        0 <= rsu_grants_entitlement_between(grants, lo, hi) <= rsu_total_mass(grants),
        rsu_total_mass(grants) >= 0,
    decreases grants.len(),
{
    if grants.len() > 0 {
        lemma_rsu_grant_sums_bounds(grants.drop_last(), lo, hi);
        assert(grants.last() == grants[grants.len() - 1]);
        lemma_rsu_units_between_bounds(grants.last().vesting_schedule.events@, lo, hi);
        lemma_sum_event_numbers_nonneg(grants.last().vesting_schedule.events@);
    }
}

pub proof fn lemma_option_grant_sums_bounds(grants: Seq<OptionGrant>, lo: Date, hi: Date)
    requires
        option_numbers_nonneg(grants),
    ensures
        0 <= option_grants_units_between(grants, lo, hi) <= option_event_mass(grants),
        0 <= option_grants_entitlement_units_between(grants, lo, hi) <= option_entitlement_mass(
            grants,
        ),
        option_event_mass(grants) >= 0,
        option_entitlement_mass(grants) >= 0,
        -option_event_mass(grants) * 0x8000_0000 <= option_grants_weight_between(grants, lo, hi)
            <= option_event_mass(grants) * 0x8000_0000,
        -option_entitlement_mass(grants) * 0x8000_0000 <= option_grants_entitlement_weight_between(
            grants,
            lo,
            hi,
        ) <= option_entitlement_mass(grants) * 0x8000_0000,
    decreases grants.len(),
{
    if grants.len() > 0 {
        assert(option_numbers_nonneg(grants.drop_last())) by {
            assert(forall|g: int|
                0 <= g < grants.drop_last().len() ==> #[trigger] grants.drop_last()[g]
                    == grants[g]);
        }
        lemma_option_grant_sums_bounds(grants.drop_last(), lo, hi);
        assert(grants.last() == grants[grants.len() - 1]);
        let ev = grants.last().vesting_schedule.events@;
        lemma_option_units_between_bounds(ev, lo, hi);
        lemma_sum_option_event_numbers_nonneg(ev);
        let u = option_units_between(ev, lo, hi);
        let m = sum_option_event_numbers(ev);
        let x = grants.last().value.exercise_price as int;
        assert(-u * 0x8000_0000 <= u * x <= u * 0x8000_0000) by (nonlinear_arith)
            requires
                0 <= u,
                -0x8000_0000 <= x <= 0x8000_0000,
        ;
        assert(u * 0x8000_0000 <= m * 0x8000_0000 && -m * 0x8000_0000 <= -u * 0x8000_0000)
            by (nonlinear_arith)
            requires
                0 <= u <= m,
        ;
        let n = grants.last().value.number as int;
        let counted = date_le(lo, grants.last().granted_on) && date_le(
            grants.last().granted_on,
            hi,
        );
        if counted {
            assert(-n * 0x8000_0000 <= n * x <= n * 0x8000_0000) by (nonlinear_arith)
                requires
                    0 <= n,
                    -0x8000_0000 <= x <= 0x8000_0000,
            ;
        }
        assert(n * 0x8000_0000 <= option_entitlement_mass(grants) * 0x8000_0000
            && -option_entitlement_mass(grants) * 0x8000_0000 <= -n * 0x8000_0000
            && option_entitlement_mass(grants.drop_last()) * 0x8000_0000 + n * 0x8000_0000
            == option_entitlement_mass(grants) * 0x8000_0000 && -option_entitlement_mass(
            grants.drop_last(),
        ) * 0x8000_0000 - n * 0x8000_0000 == -option_entitlement_mass(grants) * 0x8000_0000)
            by (nonlinear_arith)
            requires
                0 <= n,
                0 <= option_entitlement_mass(grants.drop_last()),
                option_entitlement_mass(grants) == option_entitlement_mass(grants.drop_last())
                    + n,
        ;
        assert(option_event_mass(grants.drop_last()) * 0x8000_0000 + m * 0x8000_0000
            == option_event_mass(grants) * 0x8000_0000 && -option_event_mass(grants.drop_last())
            * 0x8000_0000 - m * 0x8000_0000 == -option_event_mass(grants) * 0x8000_0000)
            by (nonlinear_arith)
            requires
                option_event_mass(grants) == option_event_mass(grants.drop_last()) + m,
        ;
    }
}

/// With non-negative unit counts, every prefix of the option events sums to
/// a total between zero and the whole sum.
pub proof fn lemma_option_sum_prefix_bounds(s: Seq<OptionGrantVestingEvent>, k: int)
    requires
        0 <= k <= s.len(),
        forall|i: int| 0 <= i < s.len() ==> (#[trigger] s[i]).number >= 0,
    ensures
        0 <= sum_option_event_numbers(s.take(k)) <= sum_option_event_numbers(s),
    decreases s.len(),
{
    if s.len() > 0 {
        if k == s.len() {
            assert(s.take(k) =~= s);
            lemma_option_sum_prefix_bounds(s.drop_last(), k - 1);
            assert(s.drop_last().take(k - 1) =~= s.drop_last());
        } else {
            assert(s.take(k) =~= s.drop_last().take(k));
            lemma_option_sum_prefix_bounds(s.drop_last(), k);
        }
    }
}

/// Prefix bounds for the per-grant daily accumulators: each prefix of the
/// grant list contributes between zero and the whole range sum.
pub proof fn lemma_rsu_grants_take_bounds(
    grants: Seq<RestrictedStockUnitGrant>,
    j: int,
    lo: Date,
    hi: Date,
)
    requires
        0 <= j <= grants.len(),
        rsu_numbers_nonneg(grants),
    ensures
        0 <= rsu_grants_units_between(grants.take(j), lo, hi) <= rsu_grants_units_between(
            grants,
            lo,
            hi,
        ),
        0 <= rsu_grants_entitlement_between(grants.take(j), lo, hi)
            <= rsu_grants_entitlement_between(grants, lo, hi),
    decreases grants.len() - j,
{
    assert(rsu_numbers_nonneg(grants.take(j))) by {
        assert(forall|g: int|
            0 <= g < grants.take(j).len() ==> #[trigger] grants.take(j)[g] == grants[g]);
    }
    lemma_rsu_grant_sums_bounds(grants.take(j), lo, hi);
    if j == grants.len() {
        assert(grants.take(j) =~= grants);
    } else {
        lemma_rsu_grants_take_bounds(grants, j + 1, lo, hi);
        assert(grants.take(j + 1).drop_last() =~= grants.take(j));
        assert(grants.take(j + 1).last() == grants[j]);
        lemma_rsu_units_between_bounds(grants[j].vesting_schedule.events@, lo, hi);
        lemma_sum_event_numbers_nonneg(grants[j].vesting_schedule.events@);
    }
}

/// As `lemma_rsu_grants_take_bounds`, for the option sums; strike weights of
/// a prefix are bounded by the prefix's unit sum times the largest
/// expressible price.
pub proof fn lemma_option_grants_take_bounds(grants: Seq<OptionGrant>, j: int, lo: Date, hi: Date)
    requires
        0 <= j <= grants.len(),
        option_numbers_nonneg(grants),
    ensures
        0 <= option_grants_units_between(grants.take(j), lo, hi) <= option_grants_units_between(
            grants,
            lo,
            hi,
        ),
        0 <= option_grants_entitlement_units_between(grants.take(j), lo, hi)
            <= option_grants_entitlement_units_between(grants, lo, hi),
        -option_grants_units_between(grants.take(j), lo, hi) * 0x8000_0000
            <= option_grants_weight_between(grants.take(j), lo, hi)
            <= option_grants_units_between(grants.take(j), lo, hi) * 0x8000_0000,
        -option_grants_entitlement_units_between(grants.take(j), lo, hi) * 0x8000_0000
            <= option_grants_entitlement_weight_between(grants.take(j), lo, hi)
            <= option_grants_entitlement_units_between(grants.take(j), lo, hi) * 0x8000_0000,
    decreases grants.len() - j,
{
    assert(option_numbers_nonneg(grants.take(j))) by {
        assert(forall|g: int|
            0 <= g < grants.take(j).len() ==> #[trigger] grants.take(j)[g] == grants[g]);
    }
    lemma_option_grant_sums_bounds(grants.take(j), lo, hi);
    lemma_option_weight_within_units(grants.take(j), lo, hi);
    if j == grants.len() {
        assert(grants.take(j) =~= grants);
    } else {
        lemma_option_grants_take_bounds(grants, j + 1, lo, hi);
        assert(grants.take(j + 1).drop_last() =~= grants.take(j));
        assert(grants.take(j + 1).last() == grants[j]);
        lemma_option_units_between_bounds(grants[j].vesting_schedule.events@, lo, hi);
        lemma_sum_option_event_numbers_nonneg(grants[j].vesting_schedule.events@);
    }
}

/// Strike weight is bounded by the unit sum times the largest expressible
/// price, both for vested units and for entitlements.
pub proof fn lemma_option_weight_within_units(grants: Seq<OptionGrant>, lo: Date, hi: Date)
    requires
        option_numbers_nonneg(grants),
    ensures
        -option_grants_units_between(grants, lo, hi) * 0x8000_0000
            <= option_grants_weight_between(grants, lo, hi) <= option_grants_units_between(
            grants,
            lo,
            hi,
        ) * 0x8000_0000,
        -option_grants_entitlement_units_between(grants, lo, hi) * 0x8000_0000
            <= option_grants_entitlement_weight_between(grants, lo, hi)
            <= option_grants_entitlement_units_between(grants, lo, hi) * 0x8000_0000,
    decreases grants.len(),
{
    if grants.len() > 0 {
        assert(option_numbers_nonneg(grants.drop_last())) by {
            assert(forall|g: int|
                0 <= g < grants.drop_last().len() ==> #[trigger] grants.drop_last()[g]
                    == grants[g]);
        }
        lemma_option_weight_within_units(grants.drop_last(), lo, hi);
        assert(grants.last() == grants[grants.len() - 1]);
        let ev = grants.last().vesting_schedule.events@;
        lemma_option_units_between_bounds(ev, lo, hi);
        let u = option_units_between(ev, lo, hi);
        let x = grants.last().value.exercise_price as int;
        let pu = option_grants_units_between(grants.drop_last(), lo, hi);
        assert(-u * 0x8000_0000 <= u * x <= u * 0x8000_0000 && pu * 0x8000_0000 + u * 0x8000_0000
            == (pu + u) * 0x8000_0000 && -pu * 0x8000_0000 - u * 0x8000_0000 == -(pu + u)
            * 0x8000_0000) by (nonlinear_arith)
            requires
                0 <= u,
                -0x8000_0000 <= x <= 0x8000_0000,
        ;
        let n = grants.last().value.number as int;
        let counted = date_le(lo, grants.last().granted_on) && date_le(
            grants.last().granted_on,
            hi,
        );
        let en: int = if counted {
            n
        } else {
            0
        };
        let pe = option_grants_entitlement_units_between(grants.drop_last(), lo, hi);
        assert(-en * 0x8000_0000 <= en * x <= en * 0x8000_0000 && pe * 0x8000_0000 + en
            * 0x8000_0000 == (pe + en) * 0x8000_0000 && -pe * 0x8000_0000 - en * 0x8000_0000 == -(
        pe + en) * 0x8000_0000) by (nonlinear_arith)
            requires
                0 <= en,
                -0x8000_0000 <= x <= 0x8000_0000,
        ;
    }
}

/// A unit balance times a price in `i32` range stays within the mass times
/// the largest expressible price.
pub proof fn lemma_mul_bound(a: int, p: int, m: int)
    requires
        -m <= a <= m,
        -0x8000_0000 <= p <= 0x8000_0000,
        0 <= m,
    ensures
        -(m * 0x8000_0000) <= a * p <= m * 0x8000_0000,
{
    assert(-(m * 0x8000_0000) <= a * p <= m * 0x8000_0000) by (nonlinear_arith)
        requires
            -m <= a <= m,
            -0x8000_0000 <= p <= 0x8000_0000,
            0 <= m,
    ;
}

/// Each option grant's own unit totals are at most the whole masses.
pub proof fn lemma_option_grant_within_mass(grants: Seq<OptionGrant>, j: int)
    requires
        option_numbers_nonneg(grants),
        0 <= j < grants.len(),
    ensures
        0 <= sum_option_event_numbers(grants[j].vesting_schedule.events@) <= option_event_mass(
            grants,
        ),
        0 <= grants[j].value.number <= option_entitlement_mass(grants),
    decreases grants.len(),
{
    lemma_sum_option_event_numbers_nonneg(grants[j].vesting_schedule.events@);
    assert(grants.last() == grants[grants.len() - 1]);
    lemma_sum_option_event_numbers_nonneg(grants.last().vesting_schedule.events@);
    assert(option_numbers_nonneg(grants.drop_last())) by {
        assert(forall|g: int|
            0 <= g < grants.drop_last().len() ==> #[trigger] grants.drop_last()[g] == grants[g]);
    }
    if j < grants.len() - 1 {
        lemma_option_grant_within_mass(grants.drop_last(), j);
    } else {
        lemma_option_grant_sums_bounds(
            grants.drop_last(),
            grants[j].granted_on,
            grants[j].granted_on,
        );
    }
}

/// Each grant's own unit total is at most the whole mass.
pub proof fn lemma_rsu_grant_within_mass(grants: Seq<RestrictedStockUnitGrant>, j: int)
    requires
        rsu_numbers_nonneg(grants),
        0 <= j < grants.len(),
    ensures
        0 <= sum_event_numbers(grants[j].vesting_schedule.events@) <= rsu_total_mass(grants),
    decreases grants.len(),
{
    lemma_sum_event_numbers_nonneg(grants[j].vesting_schedule.events@);
    assert(grants.last() == grants[grants.len() - 1]);
    lemma_sum_event_numbers_nonneg(grants.last().vesting_schedule.events@);
    if j < grants.len() - 1 {
        lemma_rsu_grant_within_mass(grants.drop_last(), j);
    } else {
        lemma_rsu_grant_sums_bounds(grants.drop_last(), grants[j].granted_on, grants[j].granted_on);
    }
}

} // verus!
