use tourist_core::time::Timestamp;
use tourist_core::time::parse_rfc3339;

fn ts(year: i32, month: u8, day: u8, hour: u8, minute: u8, second: u8, offset: i32) -> Timestamp {
    Timestamp { year, month, day, hour, minute, second, offset_seconds: offset }
}

#[test]
fn formats_rfc3339_exactly() {
    let t = ts(2024, 1, 5, 7, 8, 9, 7200);
    assert_eq!(t.format_rfc3339(), "2024-01-05T07:08:09+02:00");
}

#[test]
fn formats_negative_offset() {
    let t = ts(2024, 12, 31, 23, 59, 58, -19800);
    assert_eq!(t.format_rfc3339(), "2024-12-31T23:59:58-05:30");
}

#[test]
fn formats_compact_and_display() {
    let t = ts(2024, 1, 5, 7, 8, 9, 0);
    assert_eq!(t.format_compact(), "20240105_070809");
    assert_eq!(t.format_display(), "2024-01-05 07:08:09");
}

#[test]
fn parse_round_trips() {
    let t = ts(2024, 1, 5, 7, 8, 9, 7200);
    let text = t.format_rfc3339();
    let back = parse_rfc3339(text.as_str()).expect("must parse");
    assert_eq!(back, t);
}

#[test]
fn parse_round_trips_negative_offset() {
    let t = ts(1999, 10, 31, 0, 0, 0, -3600);
    let back = parse_rfc3339(t.format_rfc3339().as_str()).expect("must parse");
    assert_eq!(back, t);
}

#[test]
fn parse_rejects_wrong_shapes() {
    assert!(parse_rfc3339("").is_none());
    assert!(parse_rfc3339("2024-01-05").is_none());
    assert!(parse_rfc3339("2024-13-05T07:08:09+02:00").is_none());
    assert!(parse_rfc3339("2024-00-05T07:08:09+02:00").is_none());
    assert!(parse_rfc3339("2024-01-05T24:08:09+02:00").is_none());
    assert!(parse_rfc3339("2024-01-05 07:08:09+02:00").is_none());
    assert!(parse_rfc3339("2024-01-05T07:08:09*02:00").is_none());
    assert!(parse_rfc3339("2024-01-05T07:08:09+02:0x").is_none());
}

#[test]
fn key_orders_chronologically() {
    let a = ts(2024, 1, 5, 7, 8, 9, 0);
    let b = ts(2024, 1, 5, 7, 8, 10, 0);
    let c = ts(2024, 2, 1, 0, 0, 0, 0);
    assert!(a.key() < b.key());
    assert!(b.key() < c.key());
    assert!(a.le(&b));
    assert!(!b.le(&a));
}

#[test]
fn same_day_compares_calendar_fields() {
    let a = ts(2024, 1, 5, 7, 8, 9, 0);
    let b = ts(2024, 1, 5, 23, 0, 0, 0);
    let c = ts(2024, 1, 6, 7, 8, 9, 0);
    assert!(a.same_day(&b));
    assert!(!a.same_day(&c));
}
