//! Errors of the valuation core. Structurally invalid source data is handled
//! by the loading layer around the library and never reaches these types.
use vstd::prelude::*;
use crate::date::Date;

verus! {

/// A fatal data problem found while computing a report.
#[derive(Clone, Copy, Debug, PartialEq, Eq, Structural)]
pub enum EquityError {
    /// A price was queried for a date that precedes every recorded valuation.
    NoValuationAvailable(Date),
    /// A schedule definition yields no events or has a zero unit price.
    InvalidScheduleDefinition,
}

} // verus!
