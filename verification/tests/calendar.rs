//! Dates and timestamps.
use aws_net_hound::calendar::{civil_from_days, now_rfc3339, rfc3339};

#[test]
fn days_are_counted_from_the_epoch() {
    assert_eq!(civil_from_days(0), (1970, 1, 1));
    assert_eq!(civil_from_days(-1), (1969, 12, 31));
    assert_eq!(civil_from_days(31), (1970, 2, 1));
    assert_eq!(civil_from_days(11016), (2000, 2, 29));
    assert_eq!(civil_from_days(11017), (2000, 3, 1));
    assert_eq!(civil_from_days(20673), (2026, 8, 8));
    assert_eq!(civil_from_days(-719468), (0, 3, 1));
    assert_eq!(civil_from_days(-719469), (0, 2, 29));
    assert_eq!(civil_from_days(-719529), (-1, 12, 31));
}

#[test]
fn following_days_have_following_dates() {
    let mut previous = civil_from_days(-800);
    for day in -799..800 {
        let date = civil_from_days(day);
        let same_month = date.0 == previous.0 && date.1 == previous.1;
        assert!(if same_month { date.2 == previous.2 + 1 } else { date.2 == 1 });
        previous = date;
    }
}

#[test]
fn timestamps_are_written_to_the_second() {
    assert_eq!(rfc3339(0), "1970-01-01T00:00:00Z");
    assert_eq!(rfc3339(951_827_696), "2000-02-29T12:34:56Z");
    assert_eq!(rfc3339(1_786_147_199), "2026-08-07T23:59:59Z");
    assert_eq!(rfc3339(253_402_300_799), "9999-12-31T23:59:59Z");
}

#[test]
fn clock_is_read_in_this_form() {
    let now = now_rfc3339();

    assert_eq!(now.len(), 20);
    assert!(now.as_str() > "2024-01-01T00:00:00Z");
    assert!(now.ends_with('Z'));
}
