use wolog::date::{bounds_contain, unbounded, Bound, Bounds, Date, MAX_YEAR, MIN_YEAR};

fn day(y: i32, m: u32, d: u32) -> Date {
    Date::from_ymd(y, m, d).unwrap()
}

#[test]
fn only_days_of_the_calendar_are_dates() {
    assert!(Date::from_ymd(2015, 3, 14).is_some());
    assert!(Date::from_ymd(2015, 0, 14).is_none());
    assert!(Date::from_ymd(2015, 13, 1).is_none());
    assert!(Date::from_ymd(2015, 1, 0).is_none());
    assert!(Date::from_ymd(2015, 2, 29).is_none());
    assert!(Date::from_ymd(2016, 2, 29).is_some());
    assert!(Date::from_ymd(1900, 2, 29).is_none());
    assert!(Date::from_ymd(2000, 2, 29).is_some());
    assert!(Date::from_ymd(-4, 2, 29).is_some());
    assert!(Date::from_ymd(2023, 4, 31).is_none());
    assert!(Date::from_ymd(2023, 4, 30).is_some());
    assert!(Date::from_ymd(2023, 12, 31).is_some());
    assert!(Date::from_ymd(400000, 1, 1).is_none());
    assert!(Date::from_ymd(-400000, 1, 1).is_none());
    assert!(Date::from_ymd(MAX_YEAR, 12, 31).is_some());
    assert!(Date::from_ymd(MAX_YEAR + 1, 1, 1).is_none());
    assert!(Date::from_ymd(MIN_YEAR, 1, 1).is_some());
    assert!(Date::from_ymd(MIN_YEAR - 1, 12, 31).is_none());
}

#[test]
fn dates_know_their_parts_and_their_order() {
    let d = day(2024, 2, 29);
    assert_eq!((d.year(), d.month(), d.day()), (2024, 2, 29));
    assert_eq!(d.key(), (2024 * 16 + 2) * 32 + 29);
    assert!(day(2023, 12, 31).before(&day(2024, 1, 1)));
    assert!(day(2024, 1, 31).before(&day(2024, 2, 1)));
    assert!(day(2024, 2, 1).before(&day(2024, 2, 2)));
    assert!(!day(2024, 2, 2).before(&day(2024, 2, 2)));
    assert!(!day(2024, 2, 3).before(&day(2024, 2, 2)));
    assert!(day(-1, 12, 31).before(&day(0, 1, 1)));
    assert!(day(2024, 2, 2).same_day(&day(2024, 2, 2)));
    assert!(!day(2024, 2, 2).same_day(&day(2024, 3, 2)));
    assert_eq!(day(2024, 2, 2), day(2024, 2, 2));
}

#[test]
fn dates_are_written_as_year_month_day() {
    assert_eq!(day(2024, 1, 31).to_text(), "2024-01-31");
    assert_eq!(day(2015, 9, 5).to_text(), "2015-09-05");
    assert_eq!(day(0, 1, 1).to_text(), "0000-01-01");
    assert_eq!(day(9999, 12, 31).to_text(), "9999-12-31");
    assert_eq!(day(-1, 1, 1).to_text(), "-0001-01-01");
    assert_eq!(day(10000, 12, 31).to_text(), "+10000-12-31");
    assert_eq!(day(MIN_YEAR, 1, 1).to_text(), "-262143-01-01");
    assert_eq!(day(MAX_YEAR, 12, 31).to_text(), "+262142-12-31");
}

#[test]
fn dates_are_read_from_text() {
    assert_eq!(Date::parse("2015-09-18"), Some(day(2015, 9, 18)));
    assert_eq!(Date::parse("+12345-6-7"), Some(day(12345, 6, 7)));
    assert_eq!(Date::parse("foo"), None);
    assert_eq!(Date::parse(""), None);
    assert_eq!(Date::parse("2023-02-29"), None);
    assert_eq!(Date::parse("2023-13-01"), None);
}

#[test]
fn what_is_written_is_read_as_the_same_day() {
    let days = [
        day(2024, 2, 29),
        day(1, 1, 1),
        day(0, 12, 31),
        day(-1, 1, 1),
        day(-9999, 6, 15),
        day(9999, 12, 31),
        day(10000, 1, 1),
        day(MIN_YEAR, 1, 1),
        day(MAX_YEAR, 12, 31),
    ];
    for d in days {
        assert_eq!(Date::parse(&d.to_text()), Some(d));
    }
}

#[test]
fn the_day_after_and_the_day_before() {
    assert_eq!(day(2024, 2, 28).succ(), Some(day(2024, 2, 29)));
    assert_eq!(day(2023, 2, 28).succ(), Some(day(2023, 3, 1)));
    assert_eq!(day(2023, 12, 31).succ(), Some(day(2024, 1, 1)));
    assert_eq!(day(MAX_YEAR, 12, 31).succ(), None);
    assert_eq!(day(2024, 3, 1).pred(), Some(day(2024, 2, 29)));
    assert_eq!(day(2023, 3, 1).pred(), Some(day(2023, 2, 28)));
    assert_eq!(day(2024, 1, 1).pred(), Some(day(2023, 12, 31)));
    assert_eq!(day(2024, 5, 17).pred(), Some(day(2024, 5, 16)));
    assert_eq!(day(MIN_YEAR, 1, 1).pred(), None);
}

#[test]
fn unbounded_holds_every_day() {
    let all: Bounds<Date> = unbounded();
    assert_eq!(all, (Bound::Unbounded, Bound::Unbounded));
    assert!(bounds_contain(&all, &day(MIN_YEAR, 1, 1)));
    assert!(bounds_contain(&all, &day(MAX_YEAR, 12, 31)));
}

#[test]
fn bounds_hold_the_days_between_their_ends() {
    let d = day(2024, 5, 10);
    assert!(bounds_contain(&(Bound::Included(d), Bound::Included(d)), &d));
    assert!(!bounds_contain(&(Bound::Excluded(d), Bound::Unbounded), &d));
    assert!(!bounds_contain(&(Bound::Unbounded, Bound::Excluded(d)), &d));
    assert!(bounds_contain(&(Bound::Excluded(day(2024, 5, 9)), Bound::Excluded(day(2024, 5, 11))), &d));
    assert!(!bounds_contain(&(Bound::Included(day(2024, 5, 11)), Bound::Unbounded), &d));
    assert!(!bounds_contain(&(Bound::Unbounded, Bound::Included(day(2024, 5, 9))), &d));
}
