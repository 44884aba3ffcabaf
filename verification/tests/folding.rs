use amortscan::analytics::{at_or_above_trend, trailing_mean_scaled, Metric};
use amortscan::builder::fold_records;
use amortscan::date::Date;
use amortscan::records::{ExtractionError, ParsedRow, RowField};

fn day(n: u8) -> Date {
    Date { year: 2024, month: 1, day: n }
}

fn row(principal: u64, interest: u64) -> ParsedRow {
    ParsedRow { due_date: day(1), principal, interest }
}

#[test]
fn strict_increase_resets_the_tie_set() {
    // local performances 5%, 5%, 7%: the early tie at 5% loses to 7%
    let rows = vec![row(100_000, 5_000), row(100_000, 5_000), row(100_000, 7_000)];
    let res = fold_records(&rows).unwrap();
    assert_eq!(res.local_maxima, vec![2]);
}

#[test]
fn exact_ties_accumulate() {
    // local performances 5%, 6%, 6%, 4%
    let rows = vec![
        row(100_000, 5_000),
        row(100_000, 6_000),
        row(200_000, 12_000),
        row(100_000, 4_000),
    ];
    let res = fold_records(&rows).unwrap();
    // 6000/100000 and 12000/200000 are the same exact value
    assert_eq!(res.local_maxima, vec![1, 2]);
}

#[test]
fn a_tie_after_a_reset_rejoins_the_set() {
    // 7%, 5%, 7%: the last row ties the running maximum again
    let rows = vec![row(100_000, 7_000), row(100_000, 5_000), row(100_000, 7_000)];
    let res = fold_records(&rows).unwrap();
    assert_eq!(res.local_maxima, vec![0, 2]);
}

#[test]
fn maxima_are_never_empty() {
    // even an all-zero-interest schedule ties the starting maximum of zero
    let rows = vec![row(100_000, 0), row(100_000, 0)];
    let res = fold_records(&rows).unwrap();
    assert_eq!(res.local_maxima, vec![0, 1]);
    assert_eq!(res.global_maxima, vec![0, 1]);

    let rows = vec![row(100_000, 1)];
    let res = fold_records(&rows).unwrap();
    assert_eq!(res.local_maxima, vec![0]);
    assert_eq!(res.global_maxima, vec![0]);
}

#[test]
fn global_maxima_track_cumulative_performance() {
    // cumulative: 5%, 5.5%, 5% — only the second period leads
    let rows = vec![row(100_000, 5_000), row(100_000, 6_000), row(100_000, 4_000)];
    let res = fold_records(&rows).unwrap();
    assert_eq!(res.global_maxima, vec![1]);
}

#[test]
fn cumulative_fields_are_prefix_sums() {
    let rows = vec![row(10_000, 100), row(20_000, 300), row(30_000, 600)];
    let res = fold_records(&rows).unwrap();
    let mut principal_sum = 0u64;
    let mut interest_sum = 0u64;
    for (i, rec) in res.records.iter().enumerate() {
        principal_sum += rows[i].principal;
        interest_sum += rows[i].interest;
        assert_eq!(rec.cumulative_principal, principal_sum);
        assert_eq!(rec.cumulative_interest, interest_sum);
        assert_eq!(rec.local_principal, rows[i].principal);
        assert_eq!(rec.local_interest, rows[i].interest);
    }
}

#[test]
fn zero_principal_row_fails_the_fold() {
    let rows = vec![row(100_000, 5_000), row(0, 5_000)];
    let err = fold_records(&rows).unwrap_err();
    assert_eq!(err, ExtractionError::FieldParseFailure { row: 1, field: RowField::Principal });
}

#[test]
fn principal_overflow_fails_on_the_offending_row() {
    let rows = vec![row(u64::MAX, 1), row(1, 1)];
    let err = fold_records(&rows).unwrap_err();
    assert_eq!(err, ExtractionError::FieldParseFailure { row: 1, field: RowField::Principal });
}

#[test]
fn interest_overflow_fails_on_the_offending_row() {
    let rows = vec![row(1, u64::MAX), row(1, 1)];
    let err = fold_records(&rows).unwrap_err();
    assert_eq!(err, ExtractionError::FieldParseFailure { row: 1, field: RowField::Interest });
}

#[test]
fn trailing_window_uses_the_clamped_count() {
    let rows: Vec<ParsedRow> = (0..20).map(|k| row(100_000, 1_000 + 100 * k)).collect();
    let res = fold_records(&rows).unwrap();
    // before twelve prior periods exist, the divisor is the clamped count
    let (_, count) = trailing_mean_scaled(&res.records, 3, Metric::LocalPerformance);
    assert_eq!(count, 3);
    let (_, count) = trailing_mean_scaled(&res.records, 1, Metric::LocalPerformance);
    assert_eq!(count, 1);
    // the very first record's window is itself alone
    let (_, count) = trailing_mean_scaled(&res.records, 0, Metric::LocalPerformance);
    assert_eq!(count, 1);
    // from the thirteenth record on, exactly twelve prior periods count
    let (_, count) = trailing_mean_scaled(&res.records, 12, Metric::LocalPerformance);
    assert_eq!(count, 12);
    let (_, count) = trailing_mean_scaled(&res.records, 19, Metric::LocalPerformance);
    assert_eq!(count, 12);
}

#[test]
fn trailing_window_sums_the_scaled_metric() {
    // local performances 1%, 2%, 3%, 4%
    let rows = vec![
        row(100_000, 1_000),
        row(100_000, 2_000),
        row(100_000, 3_000),
        row(100_000, 4_000),
    ];
    let res = fold_records(&rows).unwrap();
    let (sum, count) = trailing_mean_scaled(&res.records, 3, Metric::LocalPerformance);
    // 1% + 2% + 3% in millionths of a percent
    assert_eq!(sum, 6_000_000);
    assert_eq!(count, 3);
}

#[test]
fn trend_classification_compares_against_the_window_mean() {
    // local performances 4%, 6%, 5%, 5%, 2%
    let rows = vec![
        row(100_000, 4_000),
        row(100_000, 6_000),
        row(100_000, 5_000),
        row(100_000, 5_000),
        row(100_000, 2_000),
    ];
    let res = fold_records(&rows).unwrap();
    // 5% against a window mean of (4 + 6) / 2 = 5%: at the trend
    assert!(at_or_above_trend(&res.records, 2, Metric::LocalPerformance));
    // 5% against (4 + 6 + 5) / 3 = 5%: at the trend
    assert!(at_or_above_trend(&res.records, 3, Metric::LocalPerformance));
    // 2% against (4 + 6 + 5 + 5) / 4 = 5%: below it
    assert!(!at_or_above_trend(&res.records, 4, Metric::LocalPerformance));
    // the first record is measured against itself
    assert!(at_or_above_trend(&res.records, 0, Metric::LocalPerformance));
}
