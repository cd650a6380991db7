use feed_itunes::duration::{parse_npt, Duration};

fn secs(s: u64) -> Option<Duration> {
    Some(Duration { secs: s, nanos: 0 })
}

#[test]
fn hours_minutes_seconds() {
    assert_eq!(parse_npt("1:02:03"), secs(3723));
}

#[test]
fn seconds_only() {
    assert_eq!(parse_npt("90"), secs(90));
}

#[test]
fn minutes_seconds() {
    assert_eq!(parse_npt("2:15"), secs(135));
}

#[test]
fn minutes_seconds_with_fraction() {
    assert_eq!(parse_npt("2:15.5"), Some(Duration { secs: 135, nanos: 500_000_000 }));
}

#[test]
fn hours_minutes_seconds_with_fraction() {
    assert_eq!(parse_npt("0:00:01.25"), Some(Duration { secs: 1, nanos: 250_000_000 }));
}

#[test]
fn fraction_truncated_after_nine_digits() {
    assert_eq!(parse_npt("1.1234567899"), Some(Duration { secs: 1, nanos: 123_456_789 }));
}

#[test]
fn minutes_above_sixty_are_summed() {
    assert_eq!(parse_npt("1:75"), secs(135));
}

#[test]
fn leading_zeros() {
    assert_eq!(parse_npt("000000000000000000000000000042"), secs(42));
}

#[test]
fn zero() {
    assert_eq!(parse_npt("0"), secs(0));
}

#[test]
fn letters_rejected() {
    assert_eq!(parse_npt("abc"), None);
}

#[test]
fn four_fields_rejected() {
    assert_eq!(parse_npt("1:2:3:4"), None);
}

#[test]
fn empty_rejected() {
    assert_eq!(parse_npt(""), None);
}

#[test]
fn empty_field_rejected() {
    assert_eq!(parse_npt("1::2"), None);
    assert_eq!(parse_npt(":5"), None);
    assert_eq!(parse_npt("5:"), None);
}

#[test]
fn signs_rejected() {
    assert_eq!(parse_npt("-5"), None);
    assert_eq!(parse_npt("+5"), None);
    assert_eq!(parse_npt("1:-2"), None);
}

#[test]
fn misplaced_fraction_rejected() {
    assert_eq!(parse_npt("5."), None);
    assert_eq!(parse_npt(".5"), None);
    assert_eq!(parse_npt("1.2.3"), None);
    assert_eq!(parse_npt("1.5:30"), None);
}

#[test]
fn whitespace_rejected() {
    assert_eq!(parse_npt(" 90"), None);
    assert_eq!(parse_npt("1: 30"), None);
}

#[test]
fn largest_seconds() {
    assert_eq!(parse_npt("18446744073709551615"), secs(u64::MAX));
    assert_eq!(parse_npt("18446744073709551616"), None);
}

#[test]
fn largest_hours() {
    assert_eq!(parse_npt("5124095576030431:00:15"), secs(u64::MAX));
    assert_eq!(parse_npt("5124095576030431:00:16"), None);
}

#[test]
fn from_secs_has_no_fraction() {
    assert_eq!(Duration::from_secs(7), Duration { secs: 7, nanos: 0 });
}
