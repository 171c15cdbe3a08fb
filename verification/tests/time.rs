use microdot_core::time::{Time, DAY, HOUR};

#[test]
fn can_parse_time() {
    let time = Time::parse("1m").unwrap();
    assert_eq!(time, Time::Minute(1));

    let time = Time::parse("1h").unwrap();
    assert_eq!(time, Time::Hour(1));

    let time = Time::parse("1d").unwrap();
    assert_eq!(time, Time::Day(1));

    let time = Time::parse("1M").unwrap();
    assert_eq!(time, Time::Month(1));

    let time = Time::parse("1y").unwrap();
    assert_eq!(time, Time::Year(1));
}

#[test]
fn it_can_convert_time_to_minutes() {
    let time = Time::Minute(1);
    assert_eq!(time.to_minutes(), 1);

    let time = Time::Hour(1);
    assert_eq!(time.to_minutes(), HOUR);

    // eight hour days
    let time = Time::Day(1);
    assert_eq!(time.to_minutes(), DAY);

    //20 working days
    let time = Time::Month(1);
    assert_eq!(time.to_minutes(), DAY * 20);

    // 260 working days of eight hours
    let time = Time::Year(1);
    assert_eq!(time.to_minutes(), DAY * 260);
}

#[test]
fn it_can_print() {
    let time = Time::Minute(1);
    assert_eq!(format!("{}", time.to_string()), "1 minute");

    let time = Time::Minute(2);
    assert_eq!(format!("{}", time.to_string()), "2 minutes");

    let time = Time::Hour(1);
    assert_eq!(format!("{}", time.to_string()), "1 hour");

    let time = Time::Hour(2);
    assert_eq!(format!("{}", time.to_string()), "2 hours");

    let time = Time::Day(1);
    assert_eq!(format!("{}", time.to_string()), "1 day");

    let time = Time::Day(2);
    assert_eq!(format!("{}", time.to_string()), "2 days");

    let time = Time::Month(1);
    assert_eq!(format!("{}", time.to_string()), "1 month");

    let time = Time::Month(2);
    assert_eq!(format!("{}", time.to_string()), "2 months");

    let time = Time::Year(1);
    assert_eq!(format!("{}", time.to_string()), "1 year");

    let time = Time::Year(2);
    assert_eq!(format!("{}", time.to_string()), "2 years");

    let time = Time::Minute(60 * 9 + 15);
    assert_eq!(format!("{}", time.to_string()), "1 day 1 hour 15 minutes");

    let time = Time::Day(1) + Time::Hour(1) + Time::Minute(15);
    assert_eq!(format!("{}", time.to_string()), "1 day 1 hour 15 minutes");
}

#[test]
fn durations_that_are_not_positive_print_as_nothing() {
    assert_eq!(Time::Minute(0).to_string(), "");
    assert_eq!(Time::Hour(-3).to_string(), "");
}

#[test]
fn text_that_is_no_duration_is_refused() {
    assert!(Time::parse("d").is_none());
    assert!(Time::parse("4").is_none());
    assert!(Time::parse("4x").is_none());
    assert!(Time::parse("x4d").is_none());
    assert!(Time::parse("4 d").is_none());
    assert!(Time::parse("2147483648m").is_none());
    assert_eq!(Time::parse("2147483647m").unwrap().to_minutes(), 2147483647);
    assert_eq!(Time::parse("007d").unwrap().to_minutes(), 7 * 480);
}

#[test]
fn minutes_stay_within_bounds() {
    assert_eq!(Time::Year(i64::MAX).to_minutes(), i64::MAX);
    assert_eq!(Time::Year(i64::MIN).to_minutes(), i64::MIN);
    assert_eq!((Time::Minute(i64::MAX) + Time::Minute(1)).to_minutes(), i64::MAX);
    assert_eq!(Time::Minute(i64::MIN).negate().to_minutes(), i64::MAX);
}
