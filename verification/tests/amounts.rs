use amortscan::amount::parse_amount_cents;

#[test]
fn whole_amounts_scale_to_cents() {
    assert_eq!(parse_amount_cents(b"0"), Some(0));
    assert_eq!(parse_amount_cents(b"7"), Some(700));
    assert_eq!(parse_amount_cents(b"1000"), Some(100_000));
    assert_eq!(parse_amount_cents(b"045"), Some(4_500));
}

#[test]
fn fraction_digits_are_exact() {
    assert_eq!(parse_amount_cents(b"0.5"), Some(50));
    assert_eq!(parse_amount_cents(b"12.34"), Some(1_234));
    assert_eq!(parse_amount_cents(b"7."), Some(700));
    assert_eq!(parse_amount_cents(b"2500.50"), Some(250_050));
    assert_eq!(parse_amount_cents(b"0.05"), Some(5));
}

#[test]
fn malformed_amounts_are_rejected() {
    assert_eq!(parse_amount_cents(b""), None);
    assert_eq!(parse_amount_cents(b"."), None);
    assert_eq!(parse_amount_cents(b".5"), None);
    assert_eq!(parse_amount_cents(b"1.234"), None);
    assert_eq!(parse_amount_cents(b"12a"), None);
    assert_eq!(parse_amount_cents(b"1,000"), None);
    assert_eq!(parse_amount_cents(b"-5"), None);
    assert_eq!(parse_amount_cents(b"1.2.3"), None);
}

#[test]
fn out_of_range_amounts_are_rejected() {
    // far beyond what u64 cents can hold
    assert_eq!(parse_amount_cents(b"99999999999999999999999999"), None);
    assert_eq!(parse_amount_cents(b"184467440737095516.16"), None);
    // the largest representable value: u64::MAX cents
    assert_eq!(parse_amount_cents(b"184467440737095516.15"), Some(u64::MAX));
}
