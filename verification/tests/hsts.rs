use porthole::hsts::{max_age_directive, parse, Hsts};

#[test]
fn no_headers_is_not_set() {
    assert_eq!(parse(""), Hsts::NotSet);
}

#[test]
fn header_absent_among_others_is_not_set() {
    let headers = "HTTP/1.1 200 OK\r\nContent-Type: text/html\r\nServer: nginx";
    assert_eq!(parse(headers), Hsts::NotSet);
}

#[test]
fn simple_max_age_is_parsed() {
    let headers = "HTTP/1.1 200 OK\r\nStrict-Transport-Security: max-age=31536000";
    assert_eq!(parse(headers), Hsts::MaxAge(31_536_000));
}

#[test]
fn max_age_with_extra_directives_is_parsed() {
    let headers = "Strict-Transport-Security: max-age=63072000; includeSubDomains; preload";
    assert_eq!(parse(headers), Hsts::MaxAge(63_072_000));
}

#[test]
fn header_name_is_case_insensitive() {
    let headers = "strict-transport-security: max-age=100";
    assert_eq!(parse(headers), Hsts::MaxAge(100));
}

#[test]
fn directive_order_does_not_matter() {
    let headers = "Strict-Transport-Security: includeSubDomains; max-age=500";
    assert_eq!(parse(headers), Hsts::MaxAge(500));
}

#[test]
fn missing_max_age_directive_is_not_set() {
    let headers = "Strict-Transport-Security: includeSubDomains";
    assert_eq!(parse(headers), Hsts::NotSet);
}

#[test]
fn non_numeric_max_age_is_not_set() {
    let headers = "Strict-Transport-Security: max-age=not-a-number";
    assert_eq!(parse(headers), Hsts::NotSet);
}

#[test]
fn zero_max_age_is_still_a_set_value() {
    // max-age=0 is a valid, meaningful directive (it un-pins HSTS).
    let headers = "Strict-Transport-Security: max-age=0";
    assert_eq!(parse(headers), Hsts::MaxAge(0));
}

#[test]
fn malformed_header_line_without_colon_is_ignored() {
    let headers = "not a real header line\r\nStrict-Transport-Security: max-age=10";
    assert_eq!(parse(headers), Hsts::MaxAge(10));
}

#[test]
fn mixed_case_header_name_reads_the_max_age() {
    assert_eq!(parse("STRICT-Transport-security: max-age=42"), Hsts::MaxAge(42));
    assert_eq!(parse("  strict-transport-SECURITY  :max-age=7"), Hsts::MaxAge(7));
}

#[test]
fn the_largest_max_age_reads_back_and_one_more_overflows() {
    assert_eq!(
        parse("Strict-Transport-Security: max-age=18446744073709551615"),
        Hsts::MaxAge(u64::MAX)
    );
    assert_eq!(parse("Strict-Transport-Security: max-age=18446744073709551616"), Hsts::NotSet);
}

#[test]
fn max_age_accepts_a_plus_sign_and_surrounding_whitespace() {
    assert_eq!(parse("Strict-Transport-Security: max-age= +15 ; preload"), Hsts::MaxAge(15));
    assert_eq!(parse("Strict-Transport-Security: max-age=-15"), Hsts::NotSet);
    assert_eq!(parse("Strict-Transport-Security: max-age=+"), Hsts::NotSet);
    assert_eq!(parse("Strict-Transport-Security: max-age="), Hsts::NotSet);
}

#[test]
fn the_first_max_age_directive_decides_even_when_unreadable() {
    assert_eq!(parse("Strict-Transport-Security: max-age=x; max-age=5"), Hsts::NotSet);
    assert_eq!(parse("Strict-Transport-Security: max-age=5; max-age=9"), Hsts::MaxAge(5));
}

#[test]
fn a_later_header_line_is_read_when_an_earlier_one_has_no_max_age() {
    let headers = "Strict-Transport-Security: preload\nStrict-Transport-Security: max-age=3\r\n";
    assert_eq!(parse(headers), Hsts::MaxAge(3));
    let first_wins = "Strict-Transport-Security: max-age=1\r\nStrict-Transport-Security: max-age=2";
    assert_eq!(parse(first_wins), Hsts::MaxAge(1));
}

#[test]
fn a_header_with_another_name_is_not_read() {
    assert_eq!(parse("Strict-Transport-Securit: max-age=3"), Hsts::NotSet);
    assert_eq!(parse("X-Strict-Transport-Security: max-age=3"), Hsts::NotSet);
}

#[test]
fn a_max_age_line_round_trips_through_its_display() {
    for n in [0u64, 7, 10, 31_536_000, u64::MAX] {
        let (text, _) = porthole::ui::hsts_line(Hsts::MaxAge(n));
        let header = format!("Strict-Transport-Security: {}", text);
        assert_eq!(parse(&header), Hsts::MaxAge(n));
    }
}

#[test]
fn max_age_directive_reads_a_header_value() {
    assert_eq!(max_age_directive(" max-age=31536000; includeSubDomains"), Some(31_536_000));
    assert_eq!(max_age_directive("preload;max-age=12"), Some(12));
    assert_eq!(max_age_directive("MAX-AGE=12"), None);
    assert_eq!(max_age_directive(""), None);
    assert_eq!(max_age_directive("max-age = 12"), None);
}
