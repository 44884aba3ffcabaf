//! Extraction of amortization-schedule payment data from the text of bank
//! statements, with running totals, performance maxima with exact tie sets,
//! and a trailing-trend query for display classification.
//!
//! Monetary amounts are held as integer cents (hundredths of the statement's
//! currency unit), so all running sums are exact. Performance ratios
//! (interest to principal) are kept as exact rational numbers and compared by
//! cross-multiplication, so ties in the maxima sets mean exact equality.

pub mod amount;
pub mod analytics;
pub mod bank;
pub mod builder;
pub mod date;
pub mod fields;
pub mod grammar;
pub mod maxima;
pub mod pipeline;
pub mod ratio;
pub mod records;
pub mod text;
