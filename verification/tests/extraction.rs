use amortscan::bank::Bank;
use amortscan::date::Date;
use amortscan::grammar::BankGrammar;
use amortscan::pipeline::extract_from_text;
use amortscan::ratio::scaled_percent;
use amortscan::records::{ExtractionError, RowField};

fn anchored_row(date: &str, principal: &str, interest: &str) -> String {
    // 19 whitespace-delimited tokens: date takes the first three, the
    // principal is token 4 and the interest token 6
    format!(
        "{} f3 {} f5 {} f7 f8 f9 f10 f11 f12 f13 f14 f15 f16 f17 f18",
        date, principal, interest
    )
}

#[test]
fn three_records_date_anchored() {
    let text = format!(
        "{}\n{}\n{}\n",
        anchored_row("01 Jan 2021", "1,000", "50"),
        anchored_row("01 Feb 2021", "1,000", "60"),
        anchored_row("01 Mar 2021", "1,000", "40"),
    );
    let res = extract_from_text(text.as_bytes(), BankGrammar::DateAnchored).unwrap();
    assert_eq!(res.records.len(), 3);

    let cumulative_principal: Vec<u64> =
        res.records.iter().map(|r| r.cumulative_principal).collect();
    assert_eq!(cumulative_principal, vec![100_000, 200_000, 300_000]);
    let cumulative_interest: Vec<u64> = res.records.iter().map(|r| r.cumulative_interest).collect();
    assert_eq!(cumulative_interest, vec![5_000, 11_000, 15_000]);

    // local performance 5%, 6%, 4%, in millionths of a percent
    let local_scaled: Vec<u128> =
        res.records.iter().map(|r| scaled_percent(&r.local_performance)).collect();
    assert_eq!(local_scaled, vec![5_000_000, 6_000_000, 4_000_000]);

    // cumulative performance 5%, 5.5%, 5%
    let cumulative_scaled: Vec<u128> =
        res.records.iter().map(|r| scaled_percent(&r.cumulative_performance)).collect();
    assert_eq!(cumulative_scaled, vec![5_000_000, 5_500_000, 5_000_000]);

    assert_eq!(res.local_maxima, vec![1]);
    assert_eq!(res.global_maxima, vec![1]);

    assert_eq!(res.records[0].due_date, Date { year: 2021, month: 1, day: 1 });
    assert_eq!(res.records[1].due_date, Date { year: 2021, month: 2, day: 1 });
    assert_eq!(res.records[2].due_date, Date { year: 2021, month: 3, day: 1 });
}

#[test]
fn alphabank_file_names_select_the_date_anchored_grammar() {
    // a plain AlphaBank statement uses textual dates, so its prefix must
    // route to the date-anchored grammar end to end
    let grammar = Bank::determine_bank("alphabank-2021.pdf").unwrap().grammar();
    assert_eq!(grammar, BankGrammar::DateAnchored);
    let text = format!("{}\n", anchored_row("01 Jan 2021", "1,000", "50"));
    let res = extract_from_text(text.as_bytes(), grammar).unwrap();
    assert_eq!(res.records.len(), 1);
    assert_eq!(res.records[0].local_principal, 100_000);
}

#[test]
fn anchored_rows_span_physical_lines() {
    // the second line has no date anchor, so it belongs to the first row
    let text = format!(
        "05 Jan 2021 f3 2,500.50 f5 100.25 f7 f8 f9\nf10 f11 f12 f13 f14 f15 f16 f17 f18\nnoise without anchor\n"
    );
    let res = extract_from_text(text.as_bytes(), BankGrammar::DateAnchored).unwrap();
    assert_eq!(res.records.len(), 1);
    assert_eq!(res.records[0].local_principal, 250_050);
    assert_eq!(res.records[0].local_interest, 10_025);
    assert_eq!(res.records[0].due_date, Date { year: 2021, month: 1, day: 5 });
}

#[test]
fn anchored_short_rows_are_noise() {
    // an anchor whose row never reaches 19 tokens is dropped; with no row
    // left the extraction reports a structural mismatch
    let text = "02 Feb 2022 only seven tokens here\n";
    let err = extract_from_text(text.as_bytes(), BankGrammar::DateAnchored).unwrap_err();
    assert_eq!(err, ExtractionError::StructuralMismatch);
}

#[test]
fn no_qualifying_rows_is_structural_mismatch() {
    // structurally valid text in which every line fails the date filter
    let text = "Scadentar de plati\n1 2 3 4 5 6\nnot.a.date x 30 1000 y 5\n";
    let err = extract_from_text(text.as_bytes(), BankGrammar::FixedWidth).unwrap_err();
    assert_eq!(err, ExtractionError::StructuralMismatch);

    let err = extract_from_text(b"no anchors anywhere\n", BankGrammar::DateAnchored).unwrap_err();
    assert_eq!(err, ExtractionError::StructuralMismatch);

    let err = extract_from_text(b"\n\n\n\n\n\n\n", BankGrammar::PairedLines).unwrap_err();
    assert_eq!(err, ExtractionError::StructuralMismatch);
}

#[test]
fn zero_principal_is_fatal() {
    // the row passes the structural filter but its principal is zero: the
    // extraction must fail on that row, not divide by zero
    let text = "15.03.2021 x 30 0 y 5\n";
    let err = extract_from_text(text.as_bytes(), BankGrammar::FixedWidth).unwrap_err();
    assert_eq!(err, ExtractionError::FieldParseFailure { row: 0, field: RowField::Principal });
}

#[test]
fn fixed_width_interest_sums_insurance() {
    // pure interest 30 and insurance 5 give a period interest of 35
    let text = "15.03.2021 x 30 1000 y 5\n";
    let res = extract_from_text(text.as_bytes(), BankGrammar::FixedWidth).unwrap();
    assert_eq!(res.records.len(), 1);
    assert_eq!(res.records[0].local_interest, 3_500);
    assert_eq!(res.records[0].local_principal, 100_000);
    assert_eq!(res.records[0].due_date, Date { year: 2021, month: 3, day: 15 });
}

#[test]
fn fixed_width_keeps_only_six_token_date_lines() {
    let text = "header line of the statement\n15.03.2021 x 30 1000 y 5\n15.04.2021 x 30 1000 y\n15.05.2021 x 20 1000 y 10\n";
    // the third data line has five tokens and is dropped by the filter
    let res = extract_from_text(text.as_bytes(), BankGrammar::FixedWidth).unwrap();
    assert_eq!(res.records.len(), 2);
    assert_eq!(res.records[0].due_date.month, 3);
    assert_eq!(res.records[1].due_date.month, 5);
}

fn paired_lines_text(rows: &[(&str, &str, &str)]) -> String {
    // six preamble lines, a repeated header, then each row split across
    // two physical lines: the date sits in token 1, the principal in
    // token 4 and the interest in token 5 of the merged row
    let mut text = String::new();
    for k in 0..6 {
        text.push_str(&format!("preamble {}\n", k));
    }
    text.push_str("Nr rata data scadenta\n");
    text.push_str("rata lunara total\n");
    text.push_str("\n");
    for (date, principal, interest) in rows {
        text.push_str(&format!("1   {}   500.00\n", date));
        text.push_str(&format!("x {} {}\n", principal, interest));
    }
    text
}

#[test]
fn paired_lines_merge_and_parse() {
    let text = paired_lines_text(&[
        ("15.03.2021", "400.00", "100.00"),
        ("15.04.2021", "410.00", "90.00"),
    ]);
    let res = extract_from_text(text.as_bytes(), BankGrammar::PairedLines).unwrap();
    assert_eq!(res.records.len(), 2);
    assert_eq!(res.records[0].due_date, Date { year: 2021, month: 3, day: 15 });
    assert_eq!(res.records[0].local_principal, 40_000);
    assert_eq!(res.records[0].local_interest, 10_000);
    assert_eq!(res.records[1].due_date, Date { year: 2021, month: 4, day: 15 });
    assert_eq!(res.records[1].cumulative_principal, 81_000);
    assert_eq!(res.records[1].cumulative_interest, 19_000);
}

#[test]
fn paired_lines_bad_date_is_field_failure() {
    let text = paired_lines_text(&[("2021-03-15", "400.00", "100.00")]);
    let err = extract_from_text(text.as_bytes(), BankGrammar::PairedLines).unwrap_err();
    assert_eq!(err, ExtractionError::FieldParseFailure { row: 0, field: RowField::DueDate });
}

#[test]
fn paired_lines_bad_amount_is_field_failure() {
    let text = paired_lines_text(&[("15.03.2021", "4o0.00", "100.00")]);
    let err = extract_from_text(text.as_bytes(), BankGrammar::PairedLines).unwrap_err();
    assert_eq!(err, ExtractionError::FieldParseFailure { row: 0, field: RowField::Principal });
}

#[test]
fn thousands_separators_only_in_anchored_layout() {
    // the paired-lines layout has no separators to strip, so a comma in an
    // amount is a parse failure there
    let text = paired_lines_text(&[("15.03.2021", "1,400.00", "100.00")]);
    let err = extract_from_text(text.as_bytes(), BankGrammar::PairedLines).unwrap_err();
    assert_eq!(err, ExtractionError::FieldParseFailure { row: 0, field: RowField::Principal });
}

#[test]
fn invalid_calendar_dates_fail_the_filter() {
    // chrono rejects an out-of-range day, so the line is no row
    let err = extract_from_text(b"31.02.2021 x 30 1000 y 5\n", BankGrammar::FixedWidth)
        .unwrap_err();
    assert_eq!(err, ExtractionError::StructuralMismatch);
}
