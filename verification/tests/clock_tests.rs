use cookbook::clock::{has_clock_shape, ClockTime, ParseError};

#[test]
fn parse_reads_hour_and_minute() {
    let time = ClockTime::parse("06:00").unwrap();
    assert_eq!(time.hour(), 6);
    assert_eq!(time.minute(), 0);
    let time = ClockTime::parse("23:59").unwrap();
    assert_eq!((time.hour(), time.minute()), (23, 59));
    let time = ClockTime::parse("00:00").unwrap();
    assert_eq!((time.hour(), time.minute()), (0, 0));
    let time = ClockTime::parse("19:07").unwrap();
    assert_eq!((time.hour(), time.minute()), (19, 7));
}

#[test]
fn parse_refuses_an_hour_without_its_zero() {
    assert_eq!(ClockTime::parse("6:00"), Err(ParseError::Malformed));
}

#[test]
fn parse_refuses_an_hour_above_23() {
    assert_eq!(ClockTime::parse("25:00"), Err(ParseError::OutOfRange));
    assert_eq!(ClockTime::parse("24:00"), Err(ParseError::OutOfRange));
    assert_eq!(ClockTime::parse("99:00"), Err(ParseError::OutOfRange));
}

#[test]
fn parse_refuses_a_minute_above_59() {
    assert_eq!(ClockTime::parse("17:60"), Err(ParseError::OutOfRange));
    assert_eq!(ClockTime::parse("00:99"), Err(ParseError::OutOfRange));
}

#[test]
fn parse_refuses_texts_of_another_make() {
    for text in [
        "", "0600", "06:0", "06:000", "006:00", "06-00", "06.00", " 6:00", " 06:00", "06:00 ",
        "06: 0", "+6:00", "-6:00", "ab:cd", "06:00:00", "6:0", "06h00", "٠٦:٠٠", "０６:００",
        "06:00\n",
    ] {
        assert_eq!(ClockTime::parse(text), Err(ParseError::Malformed), "{:?}", text);
    }
}

#[test]
fn has_clock_shape_asks_for_two_digits_a_colon_and_two_digits() {
    assert!(has_clock_shape("06:00"));
    assert!(has_clock_shape("99:99"));
    assert!(!has_clock_shape("6:00"));
    assert!(!has_clock_shape("06:00 "));
    assert!(!has_clock_shape("é6:00"));
}

#[test]
fn new_gives_a_time_for_each_hour_and_minute_of_the_day() {
    assert!(ClockTime::new(0, 0).is_some());
    assert!(ClockTime::new(23, 59).is_some());
    assert!(ClockTime::new(24, 0).is_none());
    assert!(ClockTime::new(0, 60).is_none());
    let time = ClockTime::new(7, 15).unwrap();
    assert_eq!((time.hour(), time.minute()), (7, 15));
}

#[test]
fn to_text_fills_with_zeros() {
    assert_eq!(ClockTime::new(6, 0).unwrap().to_text(), "06:00");
    assert_eq!(ClockTime::new(0, 0).unwrap().to_text(), "00:00");
    assert_eq!(ClockTime::new(23, 59).unwrap().to_text(), "23:59");
    assert_eq!(ClockTime::new(9, 5).unwrap().to_text(), "09:05");
    assert_eq!(ClockTime::new(12, 30).unwrap().to_text(), "12:30");
}

#[test]
fn to_text_then_parse_is_the_same_time_for_every_minute_of_the_day() {
    for hour in 0..24 {
        for minute in 0..60 {
            let time = ClockTime::new(hour, minute).unwrap();
            let text = time.to_text();
            assert_eq!(text, format!("{:02}:{:02}", hour, minute));
            assert_eq!(ClockTime::parse(&text), Ok(time));
        }
    }
}

#[test]
fn plus_minutes_goes_forward_and_back() {
    let six = ClockTime::new(6, 0).unwrap();
    assert_eq!(six.plus_minutes(90), ClockTime::new(7, 30).unwrap());
    assert_eq!(six.plus_minutes(-30), ClockTime::new(5, 30).unwrap());
    assert_eq!(six.plus_minutes(0), six);
    assert_eq!(six.plus_minutes(-1), ClockTime::new(5, 59).unwrap());
}

#[test]
fn plus_minutes_wraps_around_at_midnight() {
    let late = ClockTime::new(23, 50).unwrap();
    assert_eq!(late.plus_minutes(20), ClockTime::new(0, 10).unwrap());
    let early = ClockTime::new(0, 10).unwrap();
    assert_eq!(early.plus_minutes(-20), ClockTime::new(23, 50).unwrap());
    assert_eq!(early.plus_minutes(-10), ClockTime::new(0, 0).unwrap());
    assert_eq!(early.plus_minutes(-11), ClockTime::new(23, 59).unwrap());
}

#[test]
fn plus_minutes_drops_whole_days() {
    let six = ClockTime::new(6, 0).unwrap();
    assert_eq!(six.plus_minutes(1440), six);
    assert_eq!(six.plus_minutes(-1440), six);
    assert_eq!(six.plus_minutes(1439), ClockTime::new(5, 59).unwrap());
    assert_eq!(six.plus_minutes(3 * 1440 + 61), ClockTime::new(7, 1).unwrap());
    assert_eq!(six.plus_minutes(-3 * 1440 - 61), ClockTime::new(4, 59).unwrap());
}

#[test]
fn plus_minutes_takes_every_offset() {
    let six = ClockTime::new(6, 0).unwrap();
    assert_eq!(six.plus_minutes(i64::MIN), ClockTime::new(11, 52).unwrap());
    assert_eq!(six.plus_minutes(i64::MAX), ClockTime::new(0, 7).unwrap());
}

#[test]
fn plus_minutes_twice_is_plus_the_sum() {
    let start = ClockTime::new(22, 45).unwrap();
    for (a, b) in [(10, 20), (-100, 40), (1000, 1000), (-2000, 1), (75, -75)] {
        assert_eq!(start.plus_minutes(a).plus_minutes(b), start.plus_minutes(a + b));
    }
}
