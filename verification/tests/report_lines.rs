use ruststt::decimal::format_decimal;
use ruststt::report::{format_timestamp, is_ordered, render, TranscriptSegment};

fn segment(start: i64, end: i64, text: &str) -> TranscriptSegment {
    TranscriptSegment { start, end, text: text.to_string() }
}

#[test]
fn decimal_has_no_leading_zeros() {
    assert_eq!(format_decimal(0), "0");
    assert_eq!(format_decimal(7), "7");
    assert_eq!(format_decimal(10), "10");
    assert_eq!(format_decimal(1234567890), "1234567890");
    assert_eq!(format_decimal(u64::MAX), "18446744073709551615");
}

#[test]
fn timestamp_is_seconds_with_two_decimals() {
    assert_eq!(format_timestamp(0), "0.00");
    assert_eq!(format_timestamp(5), "0.05");
    assert_eq!(format_timestamp(50), "0.50");
    assert_eq!(format_timestamp(99), "0.99");
    assert_eq!(format_timestamp(100), "1.00");
    assert_eq!(format_timestamp(250), "2.50");
    assert_eq!(format_timestamp(123456), "1234.56");
    assert_eq!(format_timestamp(-1), "-0.01");
    assert_eq!(format_timestamp(-725), "-7.25");
    assert_eq!(format_timestamp(i64::MAX), "92233720368547758.07");
    assert_eq!(format_timestamp(i64::MIN), "-92233720368547758.08");
}

#[test]
fn timestamp_agrees_with_fixed_point_formatting() {
    let mut t: i64 = 0;
    while t < 200_000 {
        assert_eq!(format_timestamp(t), format!("{}.{:02}", t / 100, t % 100));
        t += 37;
    }
}

#[test]
fn segment_line_has_start_end_and_text() {
    assert_eq!(segment(0, 250, "hello there").format(), "0.00\u{2013}2.50: hello there");
    assert_eq!(segment(250, 1075, " And so on.").format(), "2.50\u{2013}10.75:  And so on.");
    assert_eq!(segment(3, 3, "").format(), "0.03\u{2013}0.03: ");
    assert_eq!(segment(100, 200, "na\u{ef}ve \u{2013} caf\u{e9}").format(), "1.00\u{2013}2.00: na\u{ef}ve \u{2013} caf\u{e9}");
}

#[test]
fn render_keeps_the_order_of_the_segments() {
    let segments = vec![segment(0, 100, "a"), segment(100, 250, "b"), segment(250, 251, "c")];
    assert_eq!(render(&segments), vec!["0.00\u{2013}1.00: a", "1.00\u{2013}2.50: b", "2.50\u{2013}2.51: c"]);
    assert_eq!(render(&vec![]), Vec::<String>::new());
    let backwards = vec![segment(300, 400, "late"), segment(0, 100, "early")];
    assert_eq!(render(&backwards), vec!["3.00\u{2013}4.00: late", "0.00\u{2013}1.00: early"]);
}

#[test]
fn order_is_by_start_time() {
    assert!(is_ordered(&vec![]));
    assert!(is_ordered(&vec![segment(5, 6, "x")]));
    assert!(is_ordered(&vec![segment(0, 100, "a"), segment(0, 50, "b"), segment(90, 95, "c")]));
    assert!(!is_ordered(&vec![segment(0, 100, "a"), segment(200, 250, "b"), segment(199, 300, "c")]));
    assert!(!is_ordered(&vec![segment(1, 2, "a"), segment(0, 2, "b")]));
}
