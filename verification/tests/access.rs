use static_serve::access_log::{
    parse_decimal, read_latency, read_status, split_fields, AccessLogRecord,
};
use static_serve::text::join_text;
use static_serve::timefmt::read_time;

#[test]
fn decimal_texts_are_read() {
    assert_eq!(parse_decimal("0"), Some(0));
    assert_eq!(parse_decimal("007"), Some(7));
    assert_eq!(parse_decimal("404"), Some(404));
    assert_eq!(parse_decimal("18446744073709551615"), Some(u64::MAX));
}

#[test]
fn what_is_no_number_is_not_read() {
    assert_eq!(parse_decimal(""), None);
    assert_eq!(parse_decimal("12a"), None);
    assert_eq!(parse_decimal("-1"), None);
    assert_eq!(parse_decimal("+1"), None);
    assert_eq!(parse_decimal(" 1"), None);
    assert_eq!(parse_decimal("18446744073709551616"), None);
    assert_eq!(parse_decimal("99999999999999999999999"), None);
}

#[test]
fn statuses_default_to_500() {
    assert_eq!(read_status("200"), 200);
    assert_eq!(read_status("404"), 404);
    assert_eq!(read_status("65535"), 65535);
    assert_eq!(read_status("65536"), 500);
    assert_eq!(read_status(""), 500);
    assert_eq!(read_status("abc"), 500);
}

#[test]
fn latency_is_the_part_before_the_point() {
    assert_eq!(read_latency("12.345678"), 12);
    assert_eq!(read_latency("0.5"), 0);
    assert_eq!(read_latency("7"), 7);
    assert_eq!(read_latency("1.2.3"), 1);
    assert_eq!(read_latency(".5"), 0);
    assert_eq!(read_latency("x.5"), 0);
    assert_eq!(read_latency(""), 0);
}

#[test]
fn times_are_read_as_rfc3339() {
    assert_eq!(read_time("1970-01-01T00:00:00Z"), 0);
    assert_eq!(read_time("2019-01-01T00:00:00Z"), 1_546_300_800);
    assert_eq!(read_time("2019-01-01T01:00:00+01:00"), 1_546_300_800);
    assert_eq!(read_time("2019-01-01T00:00:00.75Z"), 1_546_300_800);
    assert_eq!(read_time("yesterday"), 0);
    assert_eq!(read_time(""), 0);
}

#[test]
fn lines_are_cut_into_five_fields() {
    assert_eq!(
        split_fields("t^p^s^d^r"),
        Some(vec!["t".to_string(), "p".to_string(), "s".to_string(), "d".to_string(), "r".to_string()])
    );
    assert_eq!(
        split_fields("t^p^s^d^GET /a^b^c HTTP/1.1"),
        Some(vec![
            "t".to_string(),
            "p".to_string(),
            "s".to_string(),
            "d".to_string(),
            "GET /a^b^c HTTP/1.1".to_string()
        ])
    );
    assert_eq!(
        split_fields("^^^^"),
        Some(vec![String::new(), String::new(), String::new(), String::new(), String::new()])
    );
    assert_eq!(split_fields("t^p^s^d"), None);
    assert_eq!(split_fields(""), None);
}

#[test]
fn joining_puts_the_separator_between() {
    let parts = vec!["a".to_string(), "b".to_string(), String::new(), "c".to_string()];
    assert_eq!(join_text(&parts, 0, '^'), "a^b^^c");
    assert_eq!(join_text(&parts, 2, '^'), "^c");
    assert_eq!(join_text(&parts, 3, '^'), "c");
    assert_eq!(join_text(&parts, 4, '^'), "");
}

#[test]
fn a_line_becomes_a_record() {
    let record = AccessLogRecord::parse("2019-01-01T00:00:00Z^10.0.0.7:5123^404^1.234567^GET /x%20y HTTP/1.1");
    assert_eq!(
        record,
        Some(AccessLogRecord {
            timestamp: 1_546_300_800,
            peer_addr: "10.0.0.7:5123".to_string(),
            status_code: 404,
            latency_ms: 1,
            request_path: "GET /x%20y HTTP/1.1".to_string(),
        })
    );
    assert_eq!(
        record.map(|r| r.line()),
        Some("[2019/01/01 00:00:00] 10.0.0.7:5123 | 404 |   1ms | GET /x y HTTP/1.1".to_string())
    );
}

#[test]
fn a_line_with_bad_fields_falls_back() {
    assert_eq!(
        AccessLogRecord::parse("when^who^what^long^GET / HTTP/1.1"),
        Some(AccessLogRecord {
            timestamp: 0,
            peer_addr: "who".to_string(),
            status_code: 500,
            latency_ms: 0,
            request_path: "GET / HTTP/1.1".to_string(),
        })
    );
    assert_eq!(AccessLogRecord::parse("too^few"), None);
}
