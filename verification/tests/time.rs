use awesome_generator::order::Timestamp;
use awesome_generator::time::{day_label, is_old, parse_last_updated, readme_date};

#[test]
fn readme_dates_use_non_breaking_hyphens() {
    let t = Timestamp { secs: 1_735_689_600, nanos: 0 };
    assert_eq!(readme_date(&Some(t)).unwrap(), "2025&#x2011;01&#x2011;01");
    assert_eq!(readme_date(&None).unwrap(), "");
    assert_eq!(day_label(&Some(t)).unwrap(), "2025-01-01");
}

#[test]
fn dates_are_read_back() {
    assert_eq!(parse_last_updated(None).unwrap(), None);
    assert_eq!(parse_last_updated(Some(String::new())).unwrap(), None);
    assert_eq!(
        parse_last_updated(Some("2025-01-01T00:00:00Z".to_string())).unwrap(),
        Some(Timestamp { secs: 1_735_689_600, nanos: 0 })
    );
    assert!(parse_last_updated(Some("yesterday".to_string())).is_err());
}

#[test]
fn two_years_make_a_resource_old() {
    let now = Timestamp { secs: 100_000_000, nanos: 500 };
    assert!(is_old(&Timestamp { secs: 100_000_000 - 63_072_001, nanos: 999 }, &now));
    assert!(is_old(&Timestamp { secs: 100_000_000 - 63_072_000, nanos: 499 }, &now));
    assert!(!is_old(&Timestamp { secs: 100_000_000 - 63_072_000, nanos: 500 }, &now));
    assert!(!is_old(&Timestamp { secs: 100_000_000, nanos: 0 }, &now));
}

#[test]
fn readme_date_round_trip() {
    let empty = readme_date(&None).unwrap();
    assert_eq!(parse_last_updated(Some(empty)).unwrap(), None);
    let t = Timestamp { secs: 1_735_689_600, nanos: 0 };
    let written = readme_date(&Some(t)).unwrap();
    assert!(!written.contains(':'));
    assert!(parse_last_updated(Some(written)).is_err());
    assert!(parse_last_updated(Some("2025-01-01".to_string())).is_err());
}
