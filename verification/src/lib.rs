//! Equity compensation valuation: vesting-schedule materialization, a
//! step-function share-price series, and daily / quarterly valuation reports.
#![verifier::loop_isolation(false)]

pub mod date;
pub mod error;
pub mod incr;
pub mod laws;
pub mod options;
pub mod psp;
pub mod report;
pub mod rsu;
pub mod sums;
pub mod total;
