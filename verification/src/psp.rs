//! The preferred stock price series: a sparse, date-indexed step function.
//! A price holds from its effective date until superseded by a later entry;
//! querying before the first entry is an error, querying after the last one
//! carries the last price forward.
use vstd::prelude::*;

use crate::date::{date_le, date_lt, lemma_date_le_total, Date};
use crate::error::EquityError;

verus! {

/// One recorded valuation: the per-share price, in minor currency units,
/// effective on `date`.
#[derive(Clone, Copy, Debug, PartialEq, Eq, Structural)]
pub struct PreferredStockPriceValuation {
    pub date: Date,
    pub value_cents: i32,
}

impl PreferredStockPriceValuation {
    pub fn new(date: Date, value_cents: i32) -> (r: PreferredStockPriceValuation)
        ensures
            r == (PreferredStockPriceValuation { date, value_cents }),
    {
        PreferredStockPriceValuation { date, value_cents }
    }
}

/// Entries ascending by date.
pub open spec fn valuations_sorted(s: Seq<PreferredStockPriceValuation>) -> bool {
    forall|a: int, b: int|
        0 <= a <= b < s.len() ==> date_le(#[trigger] s[a].date, #[trigger] s[b].date)
}

/// No two entries share a date: the series is a function of the date. The
/// loading layer around the library rejects source data that repeats a date.
pub open spec fn valuation_dates_unique(s: Seq<PreferredStockPriceValuation>) -> bool {
    forall|a: int, b: int|
        0 <= a < b < s.len() ==> (#[trigger] s[a].date) != (#[trigger] s[b].date)
}

/// The price in force on `d`: the value of the latest entry whose date is at
/// or before `d`, or `None` when `d` precedes every entry.
pub open spec fn spec_value_on(s: Seq<PreferredStockPriceValuation>, d: Date) -> Option<i32>
    decreases s.len(),
{
    if s.len() == 0 {
        None
    } else if date_le(s.last().date, d) {
        Some(s.last().value_cents)
    } else {
        spec_value_on(s.drop_last(), d)
    }
}

/// A date-sorted series of stock price valuations.
#[derive(Debug)]
pub struct PreferredStockPrice {
    values: Vec<PreferredStockPriceValuation>,
}

impl View for PreferredStockPrice {
    type V = Seq<PreferredStockPriceValuation>;

    closed spec fn view(&self) -> Seq<PreferredStockPriceValuation> {
        self.values@
    }
}

impl PreferredStockPrice {
    pub open spec fn wf(self) -> bool {
        valuations_sorted(self@)
    }

    /// Normalizes arbitrary input order to ascending by date.
    pub fn new(values: Vec<PreferredStockPriceValuation>) -> (r: PreferredStockPrice)
        requires
            valuation_dates_unique(values@),
        ensures
            r.wf(),
            r@.to_multiset() == values@.to_multiset(),
            r@.len() == values@.len(),
    {
        let mut sorted = values;
        sort_valuations(&mut sorted);
        proof {
            broadcast use vstd::seq_lib::group_to_multiset_ensures;

        }
        PreferredStockPrice { values: sorted }
    }

    /// The price in force on `date`, per the step-function rule; fails with
    /// `NoValuationAvailable` exactly when `date` precedes every entry.
    pub fn value_on(&self, date: &Date) -> (r: Result<i32, EquityError>)
        ensures
            match r {
                Ok(v) => spec_value_on(self@, *date) == Some(v),
                Err(e) => {
                    &&& spec_value_on(self@, *date) is None
                    &&& e == EquityError::NoValuationAvailable(*date)
                },
            },
    {
        let mut best: Option<i32> = None;
        let n = self.values.len();
        let mut i: usize = 0;
        while i < n
            invariant
                0 <= i <= n,
                n == self@.len(),
                best == spec_value_on(self@.take(i as int), *date),
            decreases n - i,
        {
            proof {
                assert(self@.take(i + 1).drop_last() =~= self@.take(i as int));
            }
            if self.values[i].date.le(date) {
                best = Some(self.values[i].value_cents);
            }
            i += 1;
        }
        proof {
            assert(self@.take(n as int) =~= self@);
        }
        match best {
            Some(v) => Ok(v),
            None => Err(EquityError::NoValuationAvailable(*date)),
        }
    }
}

/// The price is a step function: two query dates with no entry strictly
/// after the first and at or before the second see the same price.
pub proof fn lemma_price_step_function(
    s: Seq<PreferredStockPriceValuation>,
    d1: Date,
    d2: Date,
)
    requires
        date_le(d1, d2),
        forall|i: int|
            0 <= i < s.len() ==> !(date_lt(d1, #[trigger] s[i].date) && date_le(s[i].date, d2)),
    ensures
        spec_value_on(s, d1) == spec_value_on(s, d2),
    decreases s.len(),
{
    if s.len() > 0 {
        if !date_le(s.last().date, d1) {
            lemma_price_step_function(s.drop_last(), d1, d2);
        }
    }
}

/// Forward carry: once any entry is at or before `d`, every later query
/// date also has a price (the last known price extends indefinitely).
pub proof fn lemma_price_carries_forward(
    s: Seq<PreferredStockPriceValuation>,
    d1: Date,
    d2: Date,
)
    requires
        date_le(d1, d2),
        spec_value_on(s, d1) is Some,
    ensures
        spec_value_on(s, d2) is Some,
    decreases s.len(),
{
    if s.len() > 0 && !date_le(s.last().date, d1) {
        lemma_price_carries_forward(s.drop_last(), d1, d2);
    }
}

/// Insertion sort, ascending by date.
fn sort_valuations(v: &mut Vec<PreferredStockPriceValuation>)
    ensures
        valuations_sorted(final(v)@),
        final(v)@.to_multiset() == old(v)@.to_multiset(),
        final(v)@.len() == old(v)@.len(),
{
    broadcast use vstd::seq_lib::group_to_multiset_ensures;

    let n = v.len();
    if n <= 1 {
        return ;
    }
    let mut i: usize = 1;
    while i < n
        invariant
            1 <= i <= n,
            n == v@.len(),
            valuations_sorted(v@.take(i as int)),
            v@.to_multiset() == old(v)@.to_multiset(),
        decreases n - i,
    {
        let x = v[i];
        let mut p: usize = 0;
        while p < i && v[p].date.le(&x.date)
            invariant
                0 <= p <= i < n,
                n == v@.len(),
                forall|q: int| 0 <= q < p ==> date_le(#[trigger] v@[q].date, x.date),
            decreases i - p,
        {
            p += 1;
        }
        proof {
            if p < i {
                lemma_date_le_total(v@[p as int].date, x.date);
            }
        }
        let ghost before = v@;
        let y = v.remove(i);
        v.insert(p, y);
        proof {
            assert(y == x);
            assert(v@ =~= before.remove(i as int).insert(p as int, x));
            assert forall|a: int, b: int| 0 <= a <= b < i + 1 implies date_le(
                #[trigger] v@[a].date,
                #[trigger] v@[b].date,
            ) by {
                assert(forall|q: int|
                    0 <= q < i ==> before.remove(i as int)[q] == #[trigger] before[q]);
                if p < i {
                    assert(forall|q: int|
                        p <= q < i ==> date_le(x.date, #[trigger] before[q].date));
                }
            }
        }
        i += 1;
    }
    proof {
        assert(v@.take(n as int) =~= v@);
    }
}

} // verus!
