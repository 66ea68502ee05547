//! Exact building blocks for loan, investment and buy-or-rent reports.
//!
//! Every amount that is rounded to two decimals is held as an integer count
//! of hundredths, so that sums and differences of amounts are exact.
//!
//! The closed forms of compound interest raise a real number to a power and
//! are not computed here. Where an amount depends on one, the caller supplies
//! its value and the library decides whether it applies: at a rate of zero,
//! where those forms are undefined, and at the ends of a loan, the library
//! gives the exact amount itself.

pub mod comparators;
pub mod investment;
pub mod loan;
pub mod rate;
pub mod rounding;
pub mod schedule;
