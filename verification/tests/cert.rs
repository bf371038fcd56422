use porthole::cert::CertNode;

fn utc(year: i32, month: u8, day: u8) -> i128 {
    let month = time::Month::try_from(month).unwrap();
    time::Date::from_calendar_date(year, month, day)
        .unwrap()
        .midnight()
        .assume_utc()
        .unix_timestamp_nanos()
}

fn sample_node() -> CertNode {
    CertNode {
        subject: "example.com".to_string(),
        subject_dn: "CN=example.com".to_string(),
        issuer: "Example CA".to_string(),
        issuer_dn: "CN=Example CA".to_string(),
        serial: "01".to_string(),
        pubkey_algorithm: "RSA".to_string(),
        not_before: Some(utc(2026, 1, 1)),
        not_after: Some(utc(2027, 1, 1)),
    }
}

#[test]
fn valid_within_window() {
    let node = sample_node();
    assert!(node.is_currently_valid(utc(2026, 6, 1)));
}

#[test]
fn expired_after_not_after() {
    let node = sample_node();
    assert!(node.is_expired(utc(2027, 6, 1)));
    assert!(!node.is_currently_valid(utc(2027, 6, 1)));
}

#[test]
fn not_yet_valid_before_not_before() {
    let node = sample_node();
    assert!(node.is_not_yet_valid(utc(2025, 6, 1)));
    assert!(!node.is_currently_valid(utc(2025, 6, 1)));
}

#[test]
fn the_window_bounds_themselves_are_valid() {
    let node = sample_node();
    assert!(node.is_currently_valid(utc(2026, 1, 1)));
    assert!(node.is_currently_valid(utc(2027, 1, 1)));
    assert!(node.is_expired(utc(2027, 1, 1) + 1));
    assert!(node.is_not_yet_valid(utc(2026, 1, 1) - 1));
}

#[test]
fn a_trust_store_node_is_always_within_its_window() {
    let mut node = sample_node();
    node.not_before = None;
    node.not_after = None;
    assert!(node.is_currently_valid(i128::MIN));
    assert!(node.is_currently_valid(i128::MAX));
    assert!(!node.expires_within(0, 14));
}

#[test]
fn expires_within_counts_whole_days_from_now() {
    let node = sample_node();
    let day: i128 = 86_400_000_000_000;
    assert!(node.expires_within(utc(2027, 1, 1) - 14 * day, 14));
    assert!(!node.expires_within(utc(2027, 1, 1) - 14 * day - 1, 14));
    assert!(node.expires_within(utc(2028, 1, 1), 14));
    assert!(node.expires_within(i128::MAX, 14));
    assert!(!node.expires_within(i128::MIN, 14));
}
