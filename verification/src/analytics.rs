//! The trailing-trend query for display classification.
//!
//! For a record that is not in the maxima set of its metric, the renderer
//! colors it by whether its performance is at or above the mean of that
//! metric over the trailing window of up to 12 prior periods, clamped at
//! the start of the sequence. The comparison here is exact over the
//! fixed-point view of the ratios (percentages in millionths, rounded
//! toward zero, as `spec_scaled_percent` gives them): the value is compared
//! against the window mean by cross-multiplying with the window count, so
//! no division is performed at all.

use vstd::prelude::*;

use crate::ratio::{
    lemma_mul_le, lemma_scaled_percent_bound, lemma_u64_mul_fits, scaled_percent,
    spec_scaled_percent, Ratio,
};
use crate::records::PaymentRecord;

verus! {

/// Which performance metric a query is about.
#[derive(Clone, Copy, PartialEq, Eq, Structural, Debug)]
pub enum Metric {
    LocalPerformance,
    CumulativePerformance,
}

/// The chosen performance ratio of a record.
pub open spec fn spec_metric_perf(rec: PaymentRecord, m: Metric) -> Ratio {
    match m {
        Metric::LocalPerformance => rec.local_performance,
        Metric::CumulativePerformance => rec.cumulative_performance,
    }
}

pub fn metric_perf(rec: &PaymentRecord, m: Metric) -> (r: Ratio)
    ensures
        r == spec_metric_perf(*rec, m),
{
    match m {
        Metric::LocalPerformance => rec.local_performance,
        Metric::CumulativePerformance => rec.cumulative_performance,
    }
}

/// First index of the trailing window before record `i`: up to 12 periods
/// back, clamped at the start.
pub open spec fn spec_window_start(i: int) -> int {
    if i >= 12 {
        i - 12
    } else {
        0
    }
}

/// Last index of the trailing window: the period before `i`, except that
/// the very first record's window is that record itself.
pub open spec fn spec_window_end(i: int) -> int {
    if i >= 1 {
        i - 1
    } else {
        0
    }
}

/// How many records the trailing window holds — exactly the clamped count,
/// which is also the divisor of the window mean: 12 once twelve prior
/// periods exist, `i` before that, and 1 for the first record.
pub open spec fn spec_window_count(i: int) -> int {
    spec_window_end(i) - spec_window_start(i) + 1
}

/// Sum of the scaled percentages of the chosen metric over records
/// `a` to `b - 1`.
pub open spec fn spec_scaled_sum(recs: Seq<PaymentRecord>, m: Metric, a: int, b: int) -> int
    decreases b - a,
{
    if b <= a {
        0
    } else {
        spec_scaled_sum(recs, m, a, b - 1) + spec_scaled_percent(spec_metric_perf(recs[b - 1], m))
    }
}

/// The largest scaled percentage any well-formed ratio can have.
pub open spec fn spec_scaled_cap() -> int {
    u64::MAX * 100_000_000
}

/// The trailing-window mean of metric `m` at record `i`, as an exact pair:
/// the sum of the scaled percentages over the window, and the window count
/// the mean divides by.
pub fn trailing_mean_scaled(records: &Vec<PaymentRecord>, i: usize, m: Metric) -> (r: (
    u128,
    usize,
))
    requires
        i < records@.len(),
        forall|j: int| 0 <= j < records@.len() ==> (#[trigger] records@[j]).wf(),
    ensures
        r.0 == spec_scaled_sum(
            records@,
            m,
            spec_window_start(i as int),
            spec_window_end(i as int) + 1,
        ),
        r.1 == spec_window_count(i as int),
        1 <= r.1 <= 13,
{
    let start: usize = if i >= 12 {
        i - 12
    } else {
        0
    };
    let end: usize = if i >= 1 {
        i - 1
    } else {
        0
    };
    let count: usize = end - start + 1;
    let n = records.len();
    let mut sum: u128 = 0;
    let mut j: usize = start;
    while j <= end
        invariant
            start <= j <= end + 1,
            end < n,
            n == records@.len(),
            end - start <= 12,
            forall|k: int| 0 <= k < records@.len() ==> (#[trigger] records@[k]).wf(),
            sum == spec_scaled_sum(records@, m, start as int, j as int),
            sum <= (j - start) * spec_scaled_cap(),
        decreases end + 1 - j,
    {
        let p = metric_perf(&records[j], m);
        let t = scaled_percent(&p);
        proof {
            lemma_scaled_percent_bound(p);
            lemma_u64_mul_fits(p.num, 100_000_000);
            assert(spec_scaled_percent(p) <= spec_scaled_cap());
            lemma_mul_le((j - start) as int, spec_scaled_cap(), 12, spec_scaled_cap());
            assert((j - start) * spec_scaled_cap() + spec_scaled_cap() == (j + 1 - start)
                * spec_scaled_cap()) by (nonlinear_arith);
        }
        sum = sum + t;
        j = j + 1;
    }
    (sum, count)
}

/// Whether record `i`'s metric value is at or above the trailing-window
/// mean of that metric: its scaled percentage, multiplied by the window
/// count, is at least the window's scaled-percentage sum.
pub fn at_or_above_trend(records: &Vec<PaymentRecord>, i: usize, m: Metric) -> (r: bool)
    requires
        i < records@.len(),
        forall|j: int| 0 <= j < records@.len() ==> (#[trigger] records@[j]).wf(),
    ensures
        r == (spec_scaled_percent(spec_metric_perf(records@[i as int], m)) * spec_window_count(
            i as int,
        ) >= spec_scaled_sum(
            records@,
            m,
            spec_window_start(i as int),
            spec_window_end(i as int) + 1,
        )),
{
    let (sum, count) = trailing_mean_scaled(records, i, m);
    let p = metric_perf(&records[i], m);
    let ps = scaled_percent(&p);
    proof {
        lemma_scaled_percent_bound(p);
        lemma_u64_mul_fits(p.num, 100_000_000);
        lemma_mul_le(ps as int, count as int, spec_scaled_cap(), 13);
    }
    ps * (count as u128) >= sum
}

} // verus!
