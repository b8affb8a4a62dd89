use canvas_trace::timestamp::Timestamp;

fn stamp(
    year: i32,
    month: u8,
    day: u8,
    hour: u8,
    minute: u8,
    second: u8,
    nanosecond: u32,
) -> Timestamp {
    Timestamp { year, month, day, hour, minute, second, nanosecond }
}

#[test]
fn time_with_a_fraction_of_a_second_is_read() {
    assert_eq!(
        Timestamp::parse("2022-04-04 00:55:57.168 UTC"),
        Some(stamp(2022, 4, 4, 0, 55, 57, 168_000_000))
    );
    assert_eq!(
        Timestamp::parse("2023-07-20 18:55:57.1 UTC"),
        Some(stamp(2023, 7, 20, 18, 55, 57, 100_000_000))
    );
    assert_eq!(
        Timestamp::parse("2023-12-31 23:59:59.999999999 UTC"),
        Some(stamp(2023, 12, 31, 23, 59, 59, 999_999_999))
    );
}

#[test]
fn time_of_a_full_second_is_read() {
    assert_eq!(
        Timestamp::parse("2022-04-04 00:55:57 UTC"),
        Some(stamp(2022, 4, 4, 0, 55, 57, 0))
    );
    assert_eq!(Timestamp::parse("2024-02-29 12:00:00 UTC"), Some(stamp(2024, 2, 29, 12, 0, 0, 0)));
}

#[test]
fn text_that_is_no_time_is_not_read() {
    assert_eq!(Timestamp::parse(""), None);
    assert_eq!(Timestamp::parse("yesterday"), None);
    assert_eq!(Timestamp::parse("2022-04-04 00:55:57.168"), None);
    assert_eq!(Timestamp::parse("2022-04-04 00:55:57.168 CET"), None);
    assert_eq!(Timestamp::parse("2022-04-04T00:55:57.168 UTC"), None);
    assert_eq!(Timestamp::parse("2022-04-04 00:55 UTC"), None);
    assert_eq!(Timestamp::parse("2022-04-04 00:55:57. UTC"), None);
    assert_eq!(Timestamp::parse(" 2022-04-04 00:55:57 UTC"), None);
    assert_eq!(Timestamp::parse("2022-04-04 00:55:57 UTC "), None);
}

#[test]
fn dates_that_do_not_exist_are_not_read() {
    assert_eq!(Timestamp::parse("2022-13-01 00:00:00 UTC"), None);
    assert_eq!(Timestamp::parse("2022-00-10 00:00:00 UTC"), None);
    assert_eq!(Timestamp::parse("2022-04-31 00:00:00 UTC"), None);
    assert_eq!(Timestamp::parse("2023-02-29 00:00:00 UTC"), None);
    assert_eq!(Timestamp::parse("2022-04-04 24:00:00 UTC"), None);
    assert_eq!(Timestamp::parse("2022-04-04 00:60:00 UTC"), None);
}

#[test]
fn earlier_times_come_before_later_ones() {
    let times = vec![
        stamp(2021, 12, 31, 23, 59, 59, 999_999_999),
        stamp(2022, 1, 1, 0, 0, 0, 0),
        stamp(2022, 1, 1, 0, 0, 0, 1),
        stamp(2022, 1, 1, 0, 0, 1, 0),
        stamp(2022, 1, 1, 0, 1, 0, 0),
        stamp(2022, 1, 1, 1, 0, 0, 0),
        stamp(2022, 1, 2, 0, 0, 0, 0),
        stamp(2022, 2, 1, 0, 0, 0, 0),
        stamp(2023, 1, 1, 0, 0, 0, 0),
    ];
    for i in 0..times.len() {
        for j in 0..times.len() {
            assert_eq!(times[i].is_before(&times[j]), i < j, "{} and {}", i, j);
        }
    }
}

#[test]
fn the_year_outweighs_the_rest() {
    let early = stamp(2022, 12, 31, 23, 59, 59, 999_999_999);
    let late = stamp(2023, 1, 1, 0, 0, 0, 0);
    assert!(early.is_before(&late));
    assert!(!late.is_before(&early));
    assert!(!early.is_before(&early));
}

#[test]
fn times_read_from_text_keep_their_order() {
    let a = Timestamp::parse("2022-04-04 00:55:57.168 UTC").unwrap();
    let b = Timestamp::parse("2022-04-04 00:55:57.2 UTC").unwrap();
    let c = Timestamp::parse("2022-04-04 00:55:58 UTC").unwrap();
    assert!(a.is_before(&b));
    assert!(b.is_before(&c));
    assert!(a.is_before(&c));
    assert!(!c.is_before(&a));
}
