use mkcontent::timestamp::Timestamp;

#[test]
fn year_of_an_instant_depends_on_the_offset() {
    // 2000-01-01T00:00:00Z
    let utc = Timestamp::from_unix_nanos(946_684_800_000_000_000, 0).unwrap();
    assert_eq!(utc.year, 2000);
    let west = Timestamp::from_unix_nanos(946_684_800_000_000_000, -3600).unwrap();
    assert_eq!(west.year, 1999);
    assert_eq!(west.unix_nanos, utc.unix_nanos);
    assert_eq!(west.offset_seconds, -3600);
}

#[test]
fn instants_and_offsets_out_of_range_are_refused() {
    assert_eq!(Timestamp::from_unix_nanos(i128::MAX, 0), None);
    assert_eq!(Timestamp::from_unix_nanos(i128::MIN, 0), None);
    assert_eq!(Timestamp::from_unix_nanos(0, 26 * 3600), None);
    // The last second of the year 9999 cannot be shown an hour further east.
    let last = 253_402_300_799_000_000_000;
    assert!(Timestamp::from_unix_nanos(last, 0).is_some());
    assert_eq!(Timestamp::from_unix_nanos(last, 3600), None);
}

#[test]
fn civil_time_to_instant() {
    let stamp = Timestamp::from_civil(2024, 1, 2, 3, 4, 5, 0, 0).unwrap();
    assert_eq!(stamp.unix_nanos, 1_704_164_645_000_000_000);
    assert_eq!(stamp.year, 2024);
    assert_eq!(stamp.offset_seconds, 0);
    // The same wall clock two hours east of Greenwich is two hours earlier.
    let east = Timestamp::from_civil(2024, 1, 2, 3, 4, 5, 0, 7200).unwrap();
    assert_eq!(east.unix_nanos, 1_704_164_645_000_000_000 - 7_200_000_000_000);
    assert_eq!(east.year, 2024);
    let nanos = Timestamp::from_civil(1970, 1, 1, 0, 0, 0, 5, 0).unwrap();
    assert_eq!(nanos.unix_nanos, 5);
}

#[test]
fn dates_that_do_not_exist_are_refused() {
    assert_eq!(Timestamp::from_civil(2023, 2, 29, 0, 0, 0, 0, 0), None);
    assert!(Timestamp::from_civil(2024, 2, 29, 0, 0, 0, 0, 0).is_some());
    assert_eq!(Timestamp::from_civil(2024, 13, 1, 0, 0, 0, 0, 0), None);
    assert_eq!(Timestamp::from_civil(2024, 0, 1, 0, 0, 0, 0, 0), None);
    assert_eq!(Timestamp::from_civil(2024, 1, 1, 24, 0, 0, 0, 0), None);
    assert_eq!(Timestamp::from_civil(2024, 1, 1, 0, 60, 0, 0, 0), None);
    assert_eq!(Timestamp::from_civil(2024, 1, 1, 0, 0, 0, 1_000_000_000, 0), None);
    assert_eq!(Timestamp::from_civil(2024, 1, 1, 0, 0, 0, 0, 100_000), None);
}

#[test]
fn order_is_by_instant() {
    let early = Timestamp::from_unix_nanos(10, 3600).unwrap();
    let late = Timestamp::from_unix_nanos(11, -3600).unwrap();
    assert!(early.not_after(&late));
    assert!(!late.not_after(&early));
    assert!(early.not_after(&early));
}

#[test]
fn rfc3339_text() {
    let stamp = Timestamp::from_civil(2024, 1, 2, 3, 4, 5, 0, 0).unwrap();
    assert_eq!(stamp.rfc3339(), Some(String::from("2024-01-02T03:04:05Z")));
    let east = Timestamp::from_civil(2024, 1, 2, 3, 4, 5, 500_000_000, 19800).unwrap();
    assert_eq!(east.rfc3339(), Some(String::from("2024-01-02T03:04:05.5+05:30")));
    // An offset with seconds has no RFC 3339 text.
    let odd = Timestamp::from_civil(2024, 1, 2, 3, 4, 5, 0, 1).unwrap();
    assert_eq!(odd.rfc3339(), None);
    // Neither has a year before 0.
    let old = Timestamp::from_civil(-1, 1, 2, 3, 4, 5, 0, 0).unwrap();
    assert_eq!(old.rfc3339(), None);
}
