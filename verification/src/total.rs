//! The daily valuation engine: one row per calendar day, from the earliest
//! grant or commencement date to the last vesting event, carrying running
//! vested and unvested balances for every grant forward one day at a time.
use vstd::prelude::*;

use crate::date::{date_le, spec_day, spec_next_day, Date};
use crate::error::EquityError;
use crate::options::{option_events_sorted, OptionGrant};
use crate::psp::{spec_value_on, PreferredStockPrice, PreferredStockPriceValuation};
use crate::rsu::{rsu_events_sorted, sum_event_numbers, RestrictedStockUnitGrant};
use crate::sums::{
    lemma_option_grants_take_bounds, lemma_option_sum_prefix_bounds, lemma_option_units_between_bounds,
    lemma_rsu_grant_within_mass, lemma_rsu_grants_take_bounds, lemma_rsu_units_between_bounds,
    option_grants_entitlement_units_between, option_grants_entitlement_weight_between,
    option_grants_units_between, option_grants_weight_between, option_numbers_nonneg,
    option_units_between, option_entitlement_mass, option_event_mass, rsu_grants_entitlement_between,
    rsu_grants_units_between, rsu_numbers_nonneg, rsu_total_mass, rsu_units_between,
};

verus! {

/// One day's mark-to-market snapshot. Unit counts are running balances as of
/// this day; monetary totals are in minor currency units at this day's price.
#[derive(Clone, Copy, Debug, PartialEq, Eq, Structural)]
pub struct ValuationItem {
    pub date: Date,
    pub psp: i32,
    pub options_vested_total: i64,
    pub options_unvested_total: i64,
    pub rsu_vested_units: i64,
    pub rsu_vested_total: i64,
    pub rsu_unvested_units: i64,
    pub rsu_unvested_total: i64,
    pub vested_total: i64,
    pub unvested_total: i64,
    pub grant_total: i64,
}

/// A bundle of option units carrying the exercise price they realize
/// against, folded into the option balances as grants and events occur.
#[derive(Clone, Copy, Debug, PartialEq, Eq, Structural)]
pub struct VestedOptionBundle {
    pub number: i32,
    pub exercise_price: i32,
}

/// The daily valuation report: one row per calendar day.
#[derive(Debug)]
pub struct Valuation {
    pub items: Vec<ValuationItem>,
}

/// The inputs both engines accept: at least one grant, every grant with at
/// least one event, schedules sorted, dates valid (event dates below the last
/// supported year so the day after the final event still exists), unit
/// counts non-negative, and whole unit masses small enough that every
/// monetary total fits the row fields.
pub open spec fn inputs_wf(opts: Seq<OptionGrant>, rsus: Seq<RestrictedStockUnitGrant>) -> bool {
    &&& opts.len() + rsus.len() >= 1
    &&& forall|g: int|
        0 <= g < opts.len() ==> {
            let gr = #[trigger] opts[g];
            &&& gr.granted_on.is_valid()
            &&& gr.vesting_schedule.commences_on.is_valid()
            &&& gr.vesting_schedule.events@.len() >= 1
            &&& option_events_sorted(gr.vesting_schedule.events@)
        }
    &&& forall|g: int|
        0 <= g < rsus.len() ==> {
            let gr = #[trigger] rsus[g];
            &&& gr.granted_on.is_valid()
            &&& gr.vesting_schedule.commences_on.is_valid()
            &&& gr.vesting_schedule.events@.len() >= 1
            &&& rsu_events_sorted(gr.vesting_schedule.events@)
        }
    &&& forall|g: int, i: int|
        0 <= g < opts.len() && 0 <= i < opts[g].vesting_schedule.events@.len() ==> {
            let d = (#[trigger] opts[g].vesting_schedule.events@[i]).date;
            d.is_valid() && d.year <= 9998
        }
    &&& forall|g: int, i: int|
        0 <= g < rsus.len() && 0 <= i < rsus[g].vesting_schedule.events@.len() ==> {
            let d = (#[trigger] rsus[g].vesting_schedule.events@[i]).date;
            d.is_valid() && d.year <= 9998
        }
    &&& rsu_numbers_nonneg(rsus)
    &&& option_numbers_nonneg(opts)
    &&& rsu_total_mass(rsus) <= 100_000_000
    &&& option_event_mass(opts) <= 100_000_000
    &&& option_entitlement_mass(opts) <= 100_000_000
}

/// `d` is the earliest schedule commencement across all grants.
pub open spec fn is_earliest_commencement(
    d: Date,
    opts: Seq<OptionGrant>,
    rsus: Seq<RestrictedStockUnitGrant>,
) -> bool {
    &&& ((exists|g: int|
        0 <= g < opts.len() && (#[trigger] opts[g]).vesting_schedule.commences_on == d) || (
    exists|g: int|
        0 <= g < rsus.len() && (#[trigger] rsus[g]).vesting_schedule.commences_on == d))
    &&& forall|g: int|
        0 <= g < opts.len() ==> date_le(d, (#[trigger] opts[g]).vesting_schedule.commences_on)
    &&& forall|g: int|
        0 <= g < rsus.len() ==> date_le(d, (#[trigger] rsus[g]).vesting_schedule.commences_on)
}

/// `d` is the earliest of all grant dates and schedule commencements across
/// all grants: the first day of the daily walk.
pub open spec fn is_earliest_start(
    d: Date,
    opts: Seq<OptionGrant>,
    rsus: Seq<RestrictedStockUnitGrant>,
) -> bool {
    &&& ((exists|g: int|
        0 <= g < opts.len() && ((#[trigger] opts[g]).vesting_schedule.commences_on == d
            || opts[g].granted_on == d)) || (exists|g: int|
        0 <= g < rsus.len() && ((#[trigger] rsus[g]).vesting_schedule.commences_on == d
            || rsus[g].granted_on == d)))
    &&& forall|g: int|
        0 <= g < opts.len() ==> date_le(d, (#[trigger] opts[g]).vesting_schedule.commences_on)
            && date_le(d, opts[g].granted_on)
    &&& forall|g: int|
        0 <= g < rsus.len() ==> date_le(d, (#[trigger] rsus[g]).vesting_schedule.commences_on)
            && date_le(d, rsus[g].granted_on)
}

/// `d` is the latest final vesting event date across all grants (with sorted
/// schedules, each grant's final event is its last).
pub open spec fn is_latest_final_event(
    d: Date,
    opts: Seq<OptionGrant>,
    rsus: Seq<RestrictedStockUnitGrant>,
) -> bool {
    &&& ((exists|g: int|
        0 <= g < opts.len() && (#[trigger] opts[g]).vesting_schedule.events@.last().date == d) || (
    exists|g: int|
        0 <= g < rsus.len() && (#[trigger] rsus[g]).vesting_schedule.events@.last().date == d))
    &&& forall|g: int|
        0 <= g < opts.len() ==> date_le(
            (#[trigger] opts[g]).vesting_schedule.events@.last().date,
            d,
        )
    &&& forall|g: int|
        0 <= g < rsus.len() ==> date_le(
            (#[trigger] rsus[g]).vesting_schedule.events@.last().date,
            d,
        )
}

/// What one daily row must hold for day `c`, given the run's start day.
pub open spec fn row_matches(
    row: ValuationItem,
    psp: Seq<PreferredStockPriceValuation>,
    opts: Seq<OptionGrant>,
    rsus: Seq<RestrictedStockUnitGrant>,
    start: Date,
    c: Date,
) -> bool {
    let p = spec_value_on(psp, c)->0 as int;
    let rsu_vested = rsu_grants_units_between(rsus, start, c);
    let rsu_granted = rsu_grants_entitlement_between(rsus, start, c);
    let ov_units = option_grants_units_between(opts, start, c);
    let ov_weight = option_grants_weight_between(opts, start, c);
    let oe_units = option_grants_entitlement_units_between(opts, start, c);
    let oe_weight = option_grants_entitlement_weight_between(opts, start, c);
    &&& row.date == c
    &&& c.is_valid()
    &&& spec_value_on(psp, c) is Some
    &&& row.psp == spec_value_on(psp, c)->0
    &&& row.rsu_vested_units as int == rsu_vested
    &&& row.rsu_unvested_units as int == rsu_granted - rsu_vested
    &&& row.rsu_vested_total as int == rsu_vested * p
    &&& row.rsu_unvested_total as int == (rsu_granted - rsu_vested) * p
    &&& row.options_vested_total as int == crate::sums::option_grants_value_between(
        opts,
        start,
        c,
        p,
    )
    &&& row.options_unvested_total as int == crate::sums::option_grants_entitlement_value_between(
        opts,
        start,
        c,
        p,
    ) - crate::sums::option_grants_value_between(opts, start, c, p)
    &&& row.vested_total == row.rsu_vested_total + row.options_vested_total
    &&& row.unvested_total == row.rsu_unvested_total + row.options_unvested_total
    &&& row.grant_total == row.unvested_total + row.vested_total
}

/// The earliest schedule commencement across all grants.
pub fn earliest_commencement(
    option_grants: &Vec<OptionGrant>,
    rsu_grants: &Vec<RestrictedStockUnitGrant>,
) -> (r: Date)
    requires
        option_grants@.len() + rsu_grants@.len() >= 1,
    ensures
        is_earliest_commencement(r, option_grants@, rsu_grants@),
{
    let mut best: Option<Date> = None;
    let mut g: usize = 0;
    while g < rsu_grants.len()
        invariant
            0 <= g <= rsu_grants@.len(),
            best is None <==> g == 0,
            best is Some ==> ({
                let b = best->0;
                &&& (exists|j: int|
                    0 <= j < g && (#[trigger] rsu_grants@[j]).vesting_schedule.commences_on == b)
                &&& forall|j: int|
                    0 <= j < g ==> date_le(
                        b,
                        (#[trigger] rsu_grants@[j]).vesting_schedule.commences_on,
                    )
            }),
        decreases rsu_grants@.len() - g,
    {
        let c = rsu_grants[g].vesting_schedule.commences_on;
        best = match best {
            None => Some(c),
            Some(b) => if c.lt(&b) {
                Some(c)
            } else {
                Some(b)
            },
        };
        g += 1;
    }
    let mut h: usize = 0;
    while h < option_grants.len()
        invariant
            0 <= h <= option_grants@.len(),
            best is None <==> rsu_grants@.len() == 0 && h == 0,
            best is Some ==> ({
                let b = best->0;
                &&& ((exists|j: int|
                    0 <= j < rsu_grants@.len() && (
                    #[trigger] rsu_grants@[j]).vesting_schedule.commences_on == b) || (exists|j: int|
                    0 <= j < h && (#[trigger] option_grants@[j]).vesting_schedule.commences_on
                        == b))
                &&& forall|j: int|
                    0 <= j < rsu_grants@.len() ==> date_le(
                        b,
                        (#[trigger] rsu_grants@[j]).vesting_schedule.commences_on,
                    )
                &&& forall|j: int|
                    0 <= j < h ==> date_le(
                        b,
                        (#[trigger] option_grants@[j]).vesting_schedule.commences_on,
                    )
            }),
        decreases option_grants@.len() - h,
    {
        let c = option_grants[h].vesting_schedule.commences_on;
        best = match best {
            None => Some(c),
            Some(b) => if c.lt(&b) {
                Some(c)
            } else {
                Some(b)
            },
        };
        h += 1;
    }
    match best {
        Some(b) => b,
        None => {
            proof {
                assert(false);
            }
            Date { year: 1, month: 1, day: 1 }
        },
    }
}

/// The earliest of all grant dates and schedule commencements: the first day
/// of the daily walk.
pub fn earliest_start_date(
    option_grants: &Vec<OptionGrant>,
    rsu_grants: &Vec<RestrictedStockUnitGrant>,
) -> (r: Date)
    requires
        option_grants@.len() + rsu_grants@.len() >= 1,
    ensures
        is_earliest_start(r, option_grants@, rsu_grants@),
{
    let mut best: Option<Date> = None;
    let mut g: usize = 0;
    while g < rsu_grants.len()
        invariant
            0 <= g <= rsu_grants@.len(),
            best is None <==> g == 0,
            best is Some ==> ({
                let b = best->0;
                &&& (exists|j: int|
                    0 <= j < g && ((#[trigger] rsu_grants@[j]).vesting_schedule.commences_on == b
                        || rsu_grants@[j].granted_on == b))
                &&& forall|j: int|
                    0 <= j < g ==> date_le(
                        b,
                        (#[trigger] rsu_grants@[j]).vesting_schedule.commences_on,
                    ) && date_le(b, rsu_grants@[j].granted_on)
            }),
        decreases rsu_grants@.len() - g,
    {
        let c = rsu_grants[g].vesting_schedule.commences_on;
        let gr = rsu_grants[g].granted_on;
        let lo = if gr.lt(&c) {
            gr
        } else {
            c
        };
        best = match best {
            None => Some(lo),
            Some(b) => if lo.lt(&b) {
                Some(lo)
            } else {
                Some(b)
            },
        };
        g += 1;
    }
    let mut h: usize = 0;
    while h < option_grants.len()
        invariant
            0 <= h <= option_grants@.len(),
            best is None <==> rsu_grants@.len() == 0 && h == 0,
            best is Some ==> ({
                let b = best->0;
                &&& ((exists|j: int|
                    0 <= j < rsu_grants@.len() && ((
                    #[trigger] rsu_grants@[j]).vesting_schedule.commences_on == b
                        || rsu_grants@[j].granted_on == b)) || (exists|j: int|
                    0 <= j < h && ((#[trigger] option_grants@[j]).vesting_schedule.commences_on
                        == b || option_grants@[j].granted_on == b)))
                &&& forall|j: int|
                    0 <= j < rsu_grants@.len() ==> date_le(
                        b,
                        (#[trigger] rsu_grants@[j]).vesting_schedule.commences_on,
                    ) && date_le(b, rsu_grants@[j].granted_on)
                &&& forall|j: int|
                    0 <= j < h ==> date_le(
                        b,
                        (#[trigger] option_grants@[j]).vesting_schedule.commences_on,
                    ) && date_le(b, option_grants@[j].granted_on)
            }),
        decreases option_grants@.len() - h,
    {
        let c = option_grants[h].vesting_schedule.commences_on;
        let gr = option_grants[h].granted_on;
        let lo = if gr.lt(&c) {
            gr
        } else {
            c
        };
        best = match best {
            None => Some(lo),
            Some(b) => if lo.lt(&b) {
                Some(lo)
            } else {
                Some(b)
            },
        };
        h += 1;
    }
    match best {
        Some(b) => b,
        None => {
            proof {
                assert(false);
            }
            Date { year: 1, month: 1, day: 1 }
        },
    }
}

/// The latest final vesting event date across all grants.
pub fn latest_final_event(
    option_grants: &Vec<OptionGrant>,
    rsu_grants: &Vec<RestrictedStockUnitGrant>,
) -> (r: Date)
    requires
        option_grants@.len() + rsu_grants@.len() >= 1,
        forall|g: int|
            0 <= g < option_grants@.len() ==> (
            #[trigger] option_grants@[g]).vesting_schedule.events@.len() >= 1,
        forall|g: int|
            0 <= g < rsu_grants@.len() ==> (
            #[trigger] rsu_grants@[g]).vesting_schedule.events@.len() >= 1,
    ensures
        is_latest_final_event(r, option_grants@, rsu_grants@),
{
    let mut best: Option<Date> = None;
    let mut g: usize = 0;
    while g < rsu_grants.len()
        invariant
            0 <= g <= rsu_grants@.len(),
            best is None <==> g == 0,
            best is Some ==> ({
                let b = best->0;
                &&& (exists|j: int|
                    0 <= j < g && (#[trigger] rsu_grants@[j]).vesting_schedule.events@.last().date
                        == b)
                &&& forall|j: int|
                    0 <= j < g ==> date_le(
                        (#[trigger] rsu_grants@[j]).vesting_schedule.events@.last().date,
                        b,
                    )
            }),
        decreases rsu_grants@.len() - g,
    {
        let ev = &rsu_grants[g].vesting_schedule.events;
        let c = ev[ev.len() - 1].date;
        best = match best {
            None => Some(c),
            Some(b) => if b.lt(&c) {
                Some(c)
            } else {
                Some(b)
            },
        };
        g += 1;
    }
    let mut h: usize = 0;
    while h < option_grants.len()
        invariant
            0 <= h <= option_grants@.len(),
            best is None <==> rsu_grants@.len() == 0 && h == 0,
            best is Some ==> ({
                let b = best->0;
                &&& ((exists|j: int|
                    0 <= j < rsu_grants@.len() && (
                    #[trigger] rsu_grants@[j]).vesting_schedule.events@.last().date == b) || (
                exists|j: int|
                    0 <= j < h && (#[trigger] option_grants@[j]).vesting_schedule.events@.last().date
                        == b))
                &&& forall|j: int|
                    0 <= j < rsu_grants@.len() ==> date_le(
                        (#[trigger] rsu_grants@[j]).vesting_schedule.events@.last().date,
                        b,
                    )
                &&& forall|j: int|
                    0 <= j < h ==> date_le(
                        (#[trigger] option_grants@[j]).vesting_schedule.events@.last().date,
                        b,
                    )
            }),
        decreases option_grants@.len() - h,
    {
        let ev = &option_grants[h].vesting_schedule.events;
        let c = ev[ev.len() - 1].date;
        best = match best {
            None => Some(c),
            Some(b) => if b.lt(&c) {
                Some(c)
            } else {
                Some(b)
            },
        };
        h += 1;
    }
    match best {
        Some(b) => b,
        None => {
            proof {
                assert(false);
            }
            Date { year: 1, month: 1, day: 1 }
        },
    }
}

/// Everything `Valuation::new` promises of a finished report, relative to
/// the run's start (the earliest grant or commencement date) and end (the
/// latest final event date).
pub open spec fn valuation_matches(
    v: Valuation,
    psp: Seq<PreferredStockPriceValuation>,
    opts: Seq<OptionGrant>,
    rsus: Seq<RestrictedStockUnitGrant>,
    start: Date,
    end: Date,
) -> bool {
    &&& is_earliest_start(start, opts, rsus)
    &&& is_latest_final_event(end, opts, rsus)
    &&& (date_le(start, end) ==> {
        &&& v.items@.len() >= 1
        &&& v.items@[0].date == start
        &&& v.items@[v.items@.len() - 1].date == end
        &&& spec_value_on(psp, start) is Some
        &&& forall|i: int|
            0 <= i < v.items@.len() ==> (#[trigger] v.items@[i]).date == spec_day(start, i)
        &&& forall|i: int|
            0 <= i < v.items@.len() ==> row_matches(
                #[trigger] v.items@[i],
                psp,
                opts,
                rsus,
                start,
                spec_day(start, i),
            )
    })
    &&& (!date_le(start, end) ==> v.items@.len() == 0)
}

/// The earliest commencement is unique.
pub proof fn lemma_earliest_unique(
    opts: Seq<OptionGrant>,
    rsus: Seq<RestrictedStockUnitGrant>,
    a: Date,
    b: Date,
)
    requires
        is_earliest_commencement(a, opts, rsus),
        is_earliest_commencement(b, opts, rsus),
    ensures
        a == b,
{
    crate::date::lemma_date_le_total(a, b);
}

/// The earliest start date is unique.
pub proof fn lemma_earliest_start_unique(
    opts: Seq<OptionGrant>,
    rsus: Seq<RestrictedStockUnitGrant>,
    a: Date,
    b: Date,
)
    requires
        is_earliest_start(a, opts, rsus),
        is_earliest_start(b, opts, rsus),
    ensures
        a == b,
{
    crate::date::lemma_date_le_total(a, b);
}

/// The latest final event date is unique.
pub proof fn lemma_latest_unique(
    opts: Seq<OptionGrant>,
    rsus: Seq<RestrictedStockUnitGrant>,
    a: Date,
    b: Date,
)
    requires
        is_latest_final_event(a, opts, rsus),
        is_latest_final_event(b, opts, rsus),
    ensures
        a == b,
{
    crate::date::lemma_date_le_total(a, b);
}

impl Valuation {
    /// Walks every calendar day from the earliest grant or commencement date to
    /// the latest vesting event, moving entitlements into the unvested
    /// balance on each grant's date, units from unvested to vested on each
    /// event's date, and valuing all balances at that day's price. Fails
    /// with `NoValuationAvailable` exactly when no price is recorded at or
    /// before the first day.
    #[verifier::rlimit(100)]
    pub fn new(
        psp: &PreferredStockPrice,
        option_grants: &Vec<OptionGrant>,
        rsu_grants: &Vec<RestrictedStockUnitGrant>,
    ) -> (r: Result<Valuation, EquityError>)
        requires
            inputs_wf(option_grants@, rsu_grants@),
        ensures
            r is Ok ==> ({
                let items = (r->Ok_0).items@;
                &&& (items.len() > 0 ==> valuation_matches(
                    r->Ok_0,
                    psp@,
                    option_grants@,
                    rsu_grants@,
                    items[0].date,
                    items[items.len() - 1].date,
                ))
                &&& (items.len() == 0 ==> forall|s: Date, f: Date|
                    is_earliest_start(s, option_grants@, rsu_grants@) && is_latest_final_event(
                        f,
                        option_grants@,
                        rsu_grants@,
                    ) ==> !date_le(s, f))
            }),
            r is Err ==> (r->Err_0 matches EquityError::NoValuationAvailable(d) && {
                &&& is_earliest_start(d, option_grants@, rsu_grants@)
                &&& spec_value_on(psp@, d) is None
                &&& forall|f: Date|
                    is_latest_final_event(f, option_grants@, rsu_grants@) ==> date_le(d, f)
            }),
    {
        let start = earliest_start_date(option_grants, rsu_grants);
        let end = latest_final_event(option_grants, rsu_grants);
        proof {
            // the run's end is some grant's final event date, so it is valid
            // and leaves room for the day after it
            if exists|g: int|
                0 <= g < option_grants@.len() && (
                #[trigger] option_grants@[g]).vesting_schedule.events@.last().date == end {
                let g = choose|g: int|
                    0 <= g < option_grants@.len() && (
                    #[trigger] option_grants@[g]).vesting_schedule.events@.last().date == end;
                let ev = option_grants@[g].vesting_schedule.events@;
                assert(ev.last() == ev[ev.len() - 1]);
            } else {
                let g = choose|g: int|
                    0 <= g < rsu_grants@.len() && (
                    #[trigger] rsu_grants@[g]).vesting_schedule.events@.last().date == end;
                let ev = rsu_grants@[g].vesting_schedule.events@;
                assert(ev.last() == ev[ev.len() - 1]);
            }
            assert(end.is_valid() && end.year <= 9998);
        }
        let mut items: Vec<ValuationItem> = Vec::new();
        let mut cursor = start;
        let mut rsu_vested: i64 = 0;
        let mut rsu_granted: i64 = 0;
        let mut ov_units: i64 = 0;
        let mut ov_weight: i64 = 0;
        let mut oe_units: i64 = 0;
        let mut oe_weight: i64 = 0;
        let ghost mut days: Seq<Date> = Seq::empty();
        while cursor.le(&end)
            invariant
                end.is_valid(),
                end.year <= 9998,
                cursor.is_valid(),
                date_le(start, cursor),
                items@.len() == days.len(),
                days.len() == 0 ==> cursor == start && rsu_vested == 0 && rsu_granted == 0
                    && ov_units == 0 && ov_weight == 0 && oe_units == 0 && oe_weight == 0,
                days.len() > 0 ==> ({
                    let last = days.last();
                    &&& days[0] == start
                    &&& cursor == spec_next_day(last)
                    &&& date_le(start, last)
                    &&& date_le(last, end)
                    &&& date_le(start, end)
                    &&& last.is_valid()
                    &&& rsu_vested as int == rsu_grants_units_between(rsu_grants@, start, last)
                    &&& rsu_granted as int == rsu_grants_entitlement_between(
                        rsu_grants@,
                        start,
                        last,
                    )
                    &&& ov_units as int == option_grants_units_between(option_grants@, start, last)
                    &&& ov_weight as int == option_grants_weight_between(
                        option_grants@,
                        start,
                        last,
                    )
                    &&& oe_units as int == option_grants_entitlement_units_between(
                        option_grants@,
                        start,
                        last,
                    )
                    &&& oe_weight as int == option_grants_entitlement_weight_between(
                        option_grants@,
                        start,
                        last,
                    )
                }),
                forall|i: int| 0 <= i < days.len() ==> #[trigger] days[i] == spec_day(start, i),
                forall|i: int|
                    0 <= i < days.len() ==> row_matches(
                        #[trigger] items@[i],
                        psp@,
                        option_grants@,
                        rsu_grants@,
                        start,
                        days[i],
                    ),
            decreases (if date_le(cursor, end) {
                (end.year + 1 - cursor.year) * 400 + (12 - cursor.month) * 31 + (31 - cursor.day)
            } else {
                0
            }),
        {
            let ghost last_days = days;
            // this day's movements across all grants
            let (dv, dg) = rsu_day_deltas(rsu_grants, &cursor);
            let (dovu, dovw, doeu, doew) = option_day_deltas(option_grants, &cursor);
            proof {
                crate::sums::lemma_rsu_grant_sums_bounds(rsu_grants@, cursor, cursor);
                crate::sums::lemma_option_grant_sums_bounds(option_grants@, cursor, cursor);
                crate::sums::lemma_option_weight_within_units(option_grants@, cursor, cursor);
                crate::sums::lemma_mul_bound(
                    option_grants_units_between(option_grants@, cursor, cursor),
                    0x8000_0000,
                    100_000_000,
                );
                crate::sums::lemma_mul_bound(
                    option_grants_entitlement_units_between(option_grants@, cursor, cursor),
                    0x8000_0000,
                    100_000_000,
                );
                if days.len() > 0 {
                    let last = days.last();
                    crate::sums::lemma_rsu_grants_units_between_step(
                        rsu_grants@,
                        start,
                        last,
                        cursor,
                    );
                    crate::sums::lemma_rsu_grants_entitlement_step(
                        rsu_grants@,
                        start,
                        last,
                        cursor,
                    );
                    crate::sums::lemma_option_grants_between_step(
                        option_grants@,
                        start,
                        last,
                        cursor,
                    );
                    crate::sums::lemma_option_grants_entitlement_step(
                        option_grants@,
                        start,
                        last,
                        cursor,
                    );
                }
                crate::sums::lemma_rsu_grant_sums_bounds(rsu_grants@, start, cursor);
                crate::sums::lemma_option_grant_sums_bounds(option_grants@, start, cursor);
                crate::sums::lemma_option_weight_within_units(option_grants@, start, cursor);
            }
            rsu_vested = rsu_vested + dv;
            rsu_granted = rsu_granted + dg;
            ov_units = ov_units + dovu;
            ov_weight = ov_weight + dovw;
            oe_units = oe_units + doeu;
            oe_weight = oe_weight + doew;
            let price = match psp.value_on(&cursor) {
                Ok(p) => p,
                Err(e) => {
                    proof {
                        if days.len() > 0 {
                            let last = days.last();
                            assert(row_matches(
                                items@[days.len() - 1],
                                psp@,
                                option_grants@,
                                rsu_grants@,
                                start,
                                last,
                            ));
                            crate::date::lemma_next_day_gt(last);
                            crate::psp::lemma_price_carries_forward(psp@, last, cursor);
                            assert(false);
                        }
                        assert(cursor == start);
                        assert(e == EquityError::NoValuationAvailable(start));
                        assert forall|f: Date|
                            is_latest_final_event(f, option_grants@, rsu_grants@) implies date_le(
                            start,
                            f,
                        ) by {
                            lemma_latest_unique(option_grants@, rsu_grants@, f, end);
                        }
                    }
                    return Err(e);
                },
            };
            let p = price as i64;
            proof {
                let ghost m: int = 100_000_000;
                crate::sums::lemma_mul_bound(
                    option_grants_units_between(option_grants@, start, cursor),
                    0x8000_0000,
                    m,
                );
                crate::sums::lemma_mul_bound(
                    option_grants_entitlement_units_between(option_grants@, start, cursor),
                    0x8000_0000,
                    m,
                );
            }
            let row = make_row(
                cursor,
                price,
                rsu_vested,
                rsu_granted,
                ov_units,
                ov_weight,
                oe_units,
                oe_weight,
            );
            items.push(row);
            proof {
                days = days.push(cursor);
                assert(days.last() == cursor);
                if last_days.len() > 0 {
                    assert(cursor == spec_next_day(last_days.last()));
                    assert(last_days.last() == spec_day(start, last_days.len() - 1));
                    assert(spec_day(start, last_days.len() as int) == spec_next_day(
                        spec_day(start, last_days.len() - 1),
                    ));
                } else {
                    assert(spec_day(start, 0) == start);
                }
                assert(forall|i: int| 0 <= i < last_days.len() ==> days[i] == last_days[i]);
                crate::sums::lemma_option_value_distributes(
                    option_grants@,
                    start,
                    cursor,
                    price as int,
                );
                crate::sums::lemma_option_entitlement_value_distributes(
                    option_grants@,
                    start,
                    cursor,
                    price as int,
                );
                assert(row.options_vested_total as int == price as int
                    * option_grants_units_between(option_grants@, start, cursor)
                    - option_grants_weight_between(option_grants@, start, cursor));
                assert(row.options_vested_total as int == crate::sums::option_grants_value_between(
                    option_grants@,
                    start,
                    cursor,
                    price as int,
                ));
                assert((price as int) * (option_grants_entitlement_units_between(
                    option_grants@,
                    start,
                    cursor,
                ) - option_grants_units_between(option_grants@, start, cursor)) == (price as int)
                    * option_grants_entitlement_units_between(option_grants@, start, cursor) - (
                price as int) * option_grants_units_between(option_grants@, start, cursor))
                    by (nonlinear_arith);
                assert(row.options_unvested_total as int
                    == crate::sums::option_grants_entitlement_value_between(
                    option_grants@,
                    start,
                    cursor,
                    price as int,
                ) - crate::sums::option_grants_value_between(
                    option_grants@,
                    start,
                    cursor,
                    price as int,
                ));
                assert(row_matches(
                    row,
                    psp@,
                    option_grants@,
                    rsu_grants@,
                    start,
                    cursor,
                ));
            }
            cursor = cursor.next_day();
        }
        proof {
            crate::date::lemma_date_le_total(cursor, end);
            if days.len() > 0 {
                let last = days.last();
                if last != end {
                    crate::date::lemma_date_le_total(last, end);
                    crate::date::lemma_next_day_is_successor(last, end);
                    assert(false);
                }
            } else {
                assert(cursor == start);
                assert(!date_le(start, end));
            }
        }
        let v = Valuation { items };
        proof {
            let s = v.items@;
            assert(s == items@);
            if date_le(start, end) {
                assert(days.len() > 0);
                assert forall|i: int| 0 <= i < s.len() implies (#[trigger] s[i]).date == spec_day(
                    start,
                    i,
                ) && row_matches(s[i], psp@, option_grants@, rsu_grants@, start, spec_day(start, i))
                    by {
                    assert(row_matches(
                        items@[i],
                        psp@,
                        option_grants@,
                        rsu_grants@,
                        start,
                        days[i],
                    ));
                    assert(days[i] == spec_day(start, i));
                }
                assert(days[0] == spec_day(start, 0));
                assert(s[0].date == start);
                assert(days[days.len() - 1] == days.last());
                assert(s[s.len() - 1].date == end);
                assert(row_matches(s[0], psp@, option_grants@, rsu_grants@, start, start));
                assert(spec_value_on(psp@, start) is Some);
            }
            assert(valuation_matches(v, psp@, option_grants@, rsu_grants@, start, end));
            if v.items@.len() > 0 {
                assert(v.items@[0].date == start);
                assert(v.items@[v.items@.len() - 1].date == end);
            } else {
                assert(!date_le(start, end));
                assert forall|s2: Date, f: Date|
                    is_earliest_start(s2, option_grants@, rsu_grants@) && is_latest_final_event(
                        f,
                        option_grants@,
                        rsu_grants@,
                    ) implies !date_le(s2, f) by {
                    lemma_earliest_start_unique(option_grants@, rsu_grants@, s2, start);
                    lemma_latest_unique(option_grants@, rsu_grants@, f, end);
                }
            }
        }
        Ok(v)
    }
}

/// Values one day's balances at that day's price.
fn make_row(
    date: Date,
    price: i32,
    rsu_vested: i64,
    rsu_granted: i64,
    ov_units: i64,
    ov_weight: i64,
    oe_units: i64,
    oe_weight: i64,
) -> (row: ValuationItem)
    requires
        0 <= rsu_vested <= 100_000_000,
        0 <= rsu_granted <= 100_000_000,
        0 <= ov_units <= 100_000_000,
        0 <= oe_units <= 100_000_000,
        -214748364800000000 <= ov_weight <= 214748364800000000,
        -214748364800000000 <= oe_weight <= 214748364800000000,
    ensures
        row.date == date,
        row.psp == price,
        row.rsu_vested_units == rsu_vested,
        row.rsu_unvested_units == rsu_granted - rsu_vested,
        row.rsu_vested_total as int == rsu_vested as int * price as int,
        row.rsu_unvested_total as int == (rsu_granted - rsu_vested) as int * price as int,
        row.options_vested_total as int == price as int * ov_units as int - ov_weight as int,
        row.options_unvested_total as int == price as int * (oe_units - ov_units) as int - (
        oe_weight - ov_weight) as int,
        row.vested_total == row.rsu_vested_total + row.options_vested_total,
        row.unvested_total == row.rsu_unvested_total + row.options_unvested_total,
        row.grant_total == row.unvested_total + row.vested_total,
{
    proof {
        let ghost m: int = 100_000_000;
        crate::sums::lemma_mul_bound(rsu_vested as int, price as int, m);
        crate::sums::lemma_mul_bound(rsu_granted as int - rsu_vested as int, price as int, m);
        crate::sums::lemma_mul_bound(ov_units as int, price as int, m);
        crate::sums::lemma_mul_bound(oe_units as int - ov_units as int, price as int, m);
    }
    let p = price as i64;
    let rsu_vested_total = rsu_vested * p;
    let rsu_unvested_units = rsu_granted - rsu_vested;
    let rsu_unvested_total = rsu_unvested_units * p;
    let options_vested_total = p * ov_units - ov_weight;
    let options_unvested_total = p * (oe_units - ov_units) - (oe_weight - ov_weight);
    let vested_total = rsu_vested_total + options_vested_total;
    let unvested_total = rsu_unvested_total + options_unvested_total;
    let grant_total = unvested_total + vested_total;
    ValuationItem {
        date,
        psp: price,
        options_vested_total,
        options_unvested_total,
        rsu_vested_units: rsu_vested,
        rsu_vested_total,
        rsu_unvested_units,
        rsu_unvested_total,
        vested_total,
        unvested_total,
        grant_total,
    }
}

/// Units vested by this grant's events dated exactly `c`.
fn rsu_events_on(
    events: &Vec<crate::rsu::RestrictedStockUnitVestingEvent>,
    c: &Date,
) -> (r: i64)
    requires
        forall|i: int| 0 <= i < events@.len() ==> (#[trigger] events@[i]).number >= 0,
        sum_event_numbers(events@) <= 100_000_000,
    ensures
        r as int == rsu_units_between(events@, *c, *c),
        0 <= r <= sum_event_numbers(events@),
{
    proof {
        crate::sums::lemma_sum_event_numbers_nonneg(events@);
    }
    let m = events.len();
    let mut total: i64 = 0;
    let mut k: usize = 0;
    while k < m
        invariant
            0 <= k <= m,
            m == events@.len(),
            total as int == rsu_units_between(events@.take(k as int), *c, *c),
            0 <= total <= sum_event_numbers(events@),
        decreases m - k,
    {
        proof {
            let ev = events@;
            assert(ev.take(k + 1).drop_last() =~= ev.take(k as int));
            assert(ev.take(k + 1).last() == ev[k as int]);
            assert(forall|i: int|
                0 <= i < ev.take(k + 1).len() ==> (#[trigger] ev.take(k + 1)[i]).number >= 0);
            lemma_rsu_units_between_bounds(ev.take(k + 1), *c, *c);
            crate::rsu::lemma_sum_prefix_bounds(ev, k + 1);
        }
        if events[k].date == *c {
            total = total + events[k].number as i64;
        }
        k += 1;
    }
    proof {
        assert(events@.take(m as int) =~= events@);
        lemma_rsu_units_between_bounds(events@, *c, *c);
    }
    total
}

/// Option units vested by this grant's events dated exactly `c`.
fn option_events_on(
    events: &Vec<crate::options::OptionGrantVestingEvent>,
    c: &Date,
) -> (r: i64)
    requires
        forall|i: int| 0 <= i < events@.len() ==> (#[trigger] events@[i]).number >= 0,
        crate::sums::sum_option_event_numbers(events@) <= 100_000_000,
    ensures
        r as int == option_units_between(events@, *c, *c),
        0 <= r <= crate::sums::sum_option_event_numbers(events@),
{
    proof {
        crate::sums::lemma_sum_option_event_numbers_nonneg(events@);
    }
    let m = events.len();
    let mut total: i64 = 0;
    let mut k: usize = 0;
    while k < m
        invariant
            0 <= k <= m,
            m == events@.len(),
            total as int == option_units_between(events@.take(k as int), *c, *c),
            0 <= total <= crate::sums::sum_option_event_numbers(events@),
        decreases m - k,
    {
        proof {
            let ev = events@;
            assert(ev.take(k + 1).drop_last() =~= ev.take(k as int));
            assert(ev.take(k + 1).last() == ev[k as int]);
            assert(forall|i: int|
                0 <= i < ev.take(k + 1).len() ==> (#[trigger] ev.take(k + 1)[i]).number >= 0);
            lemma_option_units_between_bounds(ev.take(k + 1), *c, *c);
            lemma_option_sum_prefix_bounds(ev, k + 1);
        }
        if events[k].date == *c {
            total = total + events[k].number as i64;
        }
        k += 1;
    }
    proof {
        assert(events@.take(m as int) =~= events@);
        lemma_option_units_between_bounds(events@, *c, *c);
    }
    total
}

/// One day's RSU movements: units vesting on `c`, and the entitlements of
/// grants whose grant date is `c`.
fn rsu_day_deltas(rsu_grants: &Vec<RestrictedStockUnitGrant>, c: &Date) -> (r: (i64, i64))
    requires
        rsu_numbers_nonneg(rsu_grants@),
        rsu_total_mass(rsu_grants@) <= 100_000_000,
    ensures
        r.0 as int == rsu_grants_units_between(rsu_grants@, *c, *c),
        r.1 as int == rsu_grants_entitlement_between(rsu_grants@, *c, *c),
{
    let n = rsu_grants.len();
    let mut vested: i64 = 0;
    let mut granted: i64 = 0;
    let mut j: usize = 0;
    while j < n
        invariant
            0 <= j <= n,
            n == rsu_grants@.len(),
            vested as int == rsu_grants_units_between(rsu_grants@.take(j as int), *c, *c),
            granted as int == rsu_grants_entitlement_between(rsu_grants@.take(j as int), *c, *c),
        decreases n - j,
    {
        proof {
            lemma_rsu_grants_take_bounds(rsu_grants@, j as int, *c, *c);
            lemma_rsu_grants_take_bounds(rsu_grants@, j + 1, *c, *c);
            crate::sums::lemma_rsu_grant_sums_bounds(rsu_grants@, *c, *c);
            lemma_rsu_grant_within_mass(rsu_grants@, j as int);
            assert(rsu_grants@.take(j + 1).drop_last() =~= rsu_grants@.take(j as int));
            assert(rsu_grants@.take(j + 1).last() == rsu_grants@[j as int]);
        }
        if rsu_grants[j].granted_on == *c {
            let u = rsu_grants[j].actual_total_units();
            granted = granted + u as i64;
        }
        let v = rsu_events_on(&rsu_grants[j].vesting_schedule.events, c);
        vested = vested + v;
        j += 1;
    }
    proof {
        assert(rsu_grants@.take(n as int) =~= rsu_grants@);
    }
    (vested, granted)
}

/// One day's option movements: vested units and strike weight for events
/// dated `c`, and entitlement units and strike weight for grants dated `c`.
fn option_day_deltas(option_grants: &Vec<OptionGrant>, c: &Date) -> (r: (i64, i64, i64, i64))
    requires
        option_numbers_nonneg(option_grants@),
        option_event_mass(option_grants@) <= 100_000_000,
        option_entitlement_mass(option_grants@) <= 100_000_000,
    ensures
        r.0 as int == option_grants_units_between(option_grants@, *c, *c),
        r.1 as int == option_grants_weight_between(option_grants@, *c, *c),
        r.2 as int == option_grants_entitlement_units_between(option_grants@, *c, *c),
        r.3 as int == option_grants_entitlement_weight_between(option_grants@, *c, *c),
{
    let n = option_grants.len();
    let mut vu: i64 = 0;
    let mut vw: i64 = 0;
    let mut eu: i64 = 0;
    let mut ew: i64 = 0;
    let mut j: usize = 0;
    while j < n
        invariant
            0 <= j <= n,
            n == option_grants@.len(),
            vu as int == option_grants_units_between(option_grants@.take(j as int), *c, *c),
            vw as int == option_grants_weight_between(option_grants@.take(j as int), *c, *c),
            eu as int == option_grants_entitlement_units_between(
                option_grants@.take(j as int),
                *c,
                *c,
            ),
            ew as int == option_grants_entitlement_weight_between(
                option_grants@.take(j as int),
                *c,
                *c,
            ),
        decreases n - j,
    {
        proof {
            lemma_option_grants_take_bounds(option_grants@, j as int, *c, *c);
            lemma_option_grants_take_bounds(option_grants@, j + 1, *c, *c);
            crate::sums::lemma_option_grant_sums_bounds(option_grants@, *c, *c);
            crate::sums::lemma_option_grant_within_mass(option_grants@, j as int);
            assert(option_grants@.take(j + 1).drop_last() =~= option_grants@.take(j as int));
            assert(option_grants@.take(j + 1).last() == option_grants@[j as int]);
        }
        let x = option_grants[j].value.exercise_price;
        if option_grants[j].granted_on == *c {
            let bundle = VestedOptionBundle {
                number: option_grants[j].value.number,
                exercise_price: x,
            };
            proof {
                assert((bundle.number as int) * (bundle.exercise_price as int)
                    <= 100_000_000i64 * 0x8000_0000 && (bundle.number as int)
                    * (bundle.exercise_price as int) >= -(100_000_000i64 * 0x8000_0000))
                    by (nonlinear_arith)
                    requires
                        0 <= bundle.number <= 100_000_000,
                        -0x8000_0000 <= bundle.exercise_price as int <= 0x8000_0000,
                ;
                assert(eu as int + bundle.number as int <= 100_000_000) by {
                    lemma_option_grants_take_bounds(option_grants@, j + 1, *c, *c);
                }
            }
            eu = eu + bundle.number as i64;
            ew = ew + (bundle.number as i64) * (bundle.exercise_price as i64);
        }
        let u = option_events_on(&option_grants[j].vesting_schedule.events, c);
        proof {
            assert((u as int) * (x as int) <= 100_000_000i64 * 0x8000_0000 && (u as int) * (
            x as int) >= -(100_000_000i64 * 0x8000_0000)) by (nonlinear_arith)
                requires
                    0 <= u <= 100_000_000,
                    -0x8000_0000 <= x as int <= 0x8000_0000,
            ;
        }
        vu = vu + u;
        vw = vw + u * (x as i64);
        j += 1;
    }
    proof {
        assert(option_grants@.take(n as int) =~= option_grants@);
    }
    (vu, vw, eu, ew)
}

} // verus!
