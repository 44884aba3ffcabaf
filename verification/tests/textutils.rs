use amortscan::text::{split_lines, strip_commas, tokens_of};

fn lines_as_strings(t: &[u8]) -> Vec<String> {
    split_lines(t).into_iter().map(|l| String::from_utf8(l).unwrap()).collect()
}

fn tokens_as_strings(l: &[u8]) -> Vec<String> {
    tokens_of(l).into_iter().map(|w| String::from_utf8(w).unwrap()).collect()
}

#[test]
fn lines_split_at_line_feeds() {
    assert_eq!(lines_as_strings(b""), Vec::<String>::new());
    assert_eq!(lines_as_strings(b"a"), vec!["a"]);
    assert_eq!(lines_as_strings(b"a\nb"), vec!["a", "b"]);
    // no empty final line after a trailing line feed
    assert_eq!(lines_as_strings(b"a\n"), vec!["a"]);
    assert_eq!(lines_as_strings(b"a\n\n"), vec!["a", ""]);
    // inner empty lines are kept
    assert_eq!(lines_as_strings(b"a\n\nb\n"), vec!["a", "", "b"]);
}

#[test]
fn lines_drop_a_carriage_return_only_before_a_line_feed() {
    assert_eq!(lines_as_strings(b"a\r\nb\r\n"), vec!["a", "b"]);
    assert_eq!(lines_as_strings(b"a\r\r\n"), vec!["a\r"]);
    // a bare final carriage return is not a line ending
    assert_eq!(lines_as_strings(b"a\r"), vec!["a\r"]);
}

#[test]
fn tokens_are_maximal_nonspace_runs() {
    assert_eq!(tokens_as_strings(b""), Vec::<String>::new());
    assert_eq!(tokens_as_strings(b"   \t "), Vec::<String>::new());
    assert_eq!(tokens_as_strings(b"one"), vec!["one"]);
    assert_eq!(tokens_as_strings(b"  one\t two   three "), vec!["one", "two", "three"]);
}

#[test]
fn commas_are_stripped_everywhere() {
    assert_eq!(strip_commas(b"1,000"), b"1000");
    assert_eq!(strip_commas(b",,"), b"");
    assert_eq!(strip_commas(b"12.50"), b"12.50");
}
