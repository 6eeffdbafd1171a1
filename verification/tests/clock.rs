use soundboard::clock::{
    format_datetime, format_datetime_input, format_time, local_now, parse_datetime_input,
    parse_time_input, parse_weekday,
};
use soundboard::time::{
    weekdays_to_sorted_vec, Moment, TimeOfDay, Weekday, WeekdaySet, SECONDS_PER_DAY,
};

#[test]
fn times_are_written_as_hours_and_minutes() {
    assert_eq!(format_time(&TimeOfDay::from_hms(9, 5, 0).unwrap()), "09:05");
    assert_eq!(format_time(&TimeOfDay::from_hms(9, 5, 59).unwrap()), "09:05");
    assert_eq!(format_time(&TimeOfDay::midnight()), "00:00");
    assert_eq!(format_time(&TimeOfDay::from_hms(23, 59, 59).unwrap()), "23:59");
    assert_eq!(format_time(&TimeOfDay::from_hms(12, 30, 0).unwrap()), "12:30");
    for secs in (0..SECONDS_PER_DAY).step_by(61) {
        let text = format_time(&TimeOfDay::from_seconds(secs).unwrap());
        assert_eq!(text, format!("{:02}:{:02}", secs / 3600, secs / 60 % 60));
    }
}

#[test]
fn moments_are_written_as_day_month_hour_minute() {
    assert_eq!(format_datetime(&Moment { secs: 1_735_065_000 }), Some("24.12 18:30".to_string()));
    assert_eq!(format_datetime(&Moment { secs: 0 }), Some("01.01 00:00".to_string()));
    assert_eq!(format_datetime(&Moment { secs: 59 }), Some("01.01 00:00".to_string()));
    assert_eq!(format_datetime(&Moment { secs: -60 }), Some("31.12 23:59".to_string()));
    assert_eq!(format_datetime(&Moment { secs: i64::MAX }), None);
    assert_eq!(format_datetime(&Moment { secs: i64::MIN }), None);
}

#[test]
fn moments_are_written_for_the_field() {
    assert_eq!(
        format_datetime_input(&Moment { secs: 1_735_065_000 }),
        Some("2024-12-24T18:30".to_string())
    );
    assert_eq!(format_datetime_input(&Moment { secs: 0 }), Some("1970-01-01T00:00".to_string()));
    assert_eq!(format_datetime_input(&Moment { secs: i64::MAX }), None);
}

#[test]
fn fields_are_read() {
    assert_eq!(parse_datetime_input("2024-12-24T18:30"), Some(Moment { secs: 1_735_065_000 }));
    assert_eq!(parse_datetime_input("1970-01-01T00:01"), Some(Moment { secs: 60 }));
    assert_eq!(parse_datetime_input("2024-13-01T00:00"), None);
    assert_eq!(parse_datetime_input(""), None);
    assert_eq!(parse_time_input("09:05"), TimeOfDay::from_hms(9, 5, 0));
    assert_eq!(parse_time_input("09:05").unwrap().seconds(), 9 * 3600 + 5 * 60);
    assert_eq!(parse_time_input("23:59").unwrap().seconds(), 86_340);
    assert_eq!(parse_time_input("24:00"), None);
    assert_eq!(parse_time_input("noon"), None);
    assert_eq!(parse_time_input(""), None);
}

#[test]
fn reading_and_writing_a_field_agree() {
    for secs in [0i64, 60, 1_735_065_000, 4_102_444_800, -86_400] {
        let text = format_datetime_input(&Moment { secs }).unwrap();
        assert_eq!(parse_datetime_input(&text), Some(Moment { secs }));
    }
}

#[test]
fn the_clock_gives_a_time_of_the_day() {
    let now = local_now();
    assert!(now.time.seconds() < SECONDS_PER_DAY);
    assert!(now.weekday.num_days_from_monday() < 7);
    assert!(now.moment.secs > 1_600_000_000);
    let days_since_epoch = now.moment.secs.div_euclid(86_400);
    assert_eq!(now.moment.secs.rem_euclid(86_400), now.time.seconds() as i64);
    assert_eq!((days_since_epoch + 3).rem_euclid(7), now.weekday.num_days_from_monday() as i64);
}

#[test]
fn times_of_day_are_checked() {
    assert_eq!(TimeOfDay::from_hms(24, 0, 0), None);
    assert_eq!(TimeOfDay::from_hms(0, 60, 0), None);
    assert_eq!(TimeOfDay::from_hms(0, 0, 60), None);
    assert_eq!(TimeOfDay::from_seconds(86_400), None);
    assert_eq!(TimeOfDay::from_seconds(86_399), TimeOfDay::from_hms(23, 59, 59));
    assert_eq!(TimeOfDay::from_hms(1, 2, 3).unwrap().seconds(), 3723);
    assert_eq!(TimeOfDay::midnight().seconds(), 0);
}

#[test]
fn a_minute_later() {
    assert_eq!(TimeOfDay::from_hms(12, 0, 0).unwrap().plus_minute(), TimeOfDay::from_hms(12, 1, 0).unwrap());
    assert_eq!(TimeOfDay::from_hms(23, 59, 0).unwrap().plus_minute(), TimeOfDay::midnight());
    assert_eq!(TimeOfDay::from_hms(23, 59, 30).unwrap().plus_minute().seconds(), 30);
    assert_eq!(Moment { secs: 100 }.plus_minute(), Moment { secs: 160 });
    assert_eq!(Moment { secs: -30 }.plus_minute(), Moment { secs: 30 });
    assert_eq!(Moment { secs: i64::MAX - 60 }.plus_minute(), Moment { secs: i64::MAX });
    assert_eq!(Moment { secs: i64::MAX - 59 }.plus_minute(), Moment { secs: i64::MAX });
}

#[test]
fn weekdays_are_numbered_from_monday() {
    let week = [
        Weekday::Mon, Weekday::Tue, Weekday::Wed, Weekday::Thu, Weekday::Fri, Weekday::Sat,
        Weekday::Sun,
    ];
    for (i, day) in week.iter().enumerate() {
        assert_eq!(day.num_days_from_monday() as usize, i);
        assert_eq!(Weekday::from_index(i as u32), Some(*day));
    }
    assert_eq!(Weekday::from_index(7), None);
    let labels: Vec<String> = week.iter().map(|d| d.short_label()).collect();
    assert_eq!(labels, vec!["M", "Tu", "W", "Th", "F", "Sa", "Su"]);
}

#[test]
fn weekday_sets() {
    let mut set = WeekdaySet::empty();
    assert!(set.is_empty());
    set.insert(Weekday::Wed);
    set.insert(Weekday::Mon);
    set.insert(Weekday::Wed);
    assert!(!set.is_empty());
    assert!(set.contains(Weekday::Mon));
    assert!(set.contains(Weekday::Wed));
    assert!(!set.contains(Weekday::Tue));
    assert_eq!(set.to_vec(), vec![Weekday::Mon, Weekday::Wed]);
    assert_eq!(set, WeekdaySet::from_days(&[Weekday::Wed, Weekday::Mon, Weekday::Mon]));
    set.toggle(Weekday::Mon);
    set.toggle(Weekday::Sun);
    assert_eq!(set.to_vec(), vec![Weekday::Wed, Weekday::Sun]);
    set.remove(Weekday::Wed);
    set.remove(Weekday::Fri);
    assert_eq!(set.to_vec(), vec![Weekday::Sun]);
    let other = WeekdaySet::from_days(&[Weekday::Sun, Weekday::Sat]);
    assert_eq!(set.intersect(&other), WeekdaySet::from_days(&[Weekday::Sun]));
    assert!(set.intersect(&WeekdaySet::from_days(&[Weekday::Sat])).is_empty());
    assert_eq!(WeekdaySet::full().to_vec().len(), 7);
    assert_eq!(WeekdaySet::full().intersect(&other), other);
    assert_eq!(WeekdaySet::from_days(&[]), WeekdaySet::empty());
}

#[test]
fn weekday_labels_come_in_the_order_of_the_week() {
    let set = WeekdaySet::from_days(&[Weekday::Sun, Weekday::Tue, Weekday::Mon, Weekday::Thu]);
    assert_eq!(weekdays_to_sorted_vec(set), vec!["M", "Tu", "Th", "Su"]);
    assert_eq!(weekdays_to_sorted_vec(WeekdaySet::full()), vec!["M", "Tu", "W", "Th", "F", "Sa", "Su"]);
    assert!(weekdays_to_sorted_vec(WeekdaySet::empty()).is_empty());
}

#[test]
fn day_buttons_are_read_by_their_label() {
    let labels = ["Mon", "Tue", "Wed", "Thu", "Fri", "Sat", "Sun"];
    for (i, label) in labels.iter().enumerate() {
        assert_eq!(parse_weekday(label), Weekday::from_index(i as u32));
    }
    assert_eq!(parse_weekday("Day"), None);
    assert_eq!(parse_weekday(""), None);
}

#[test]
fn pressing_a_day_button_flips_the_day() {
    let mut set = WeekdaySet::full();
    set.press(Weekday::Tue, true);
    assert!(!set.contains(Weekday::Tue));
    assert_eq!(set.to_vec().len(), 6);
    set.press(Weekday::Tue, false);
    assert_eq!(set, WeekdaySet::full());
    set.press(Weekday::Tue, false);
    assert_eq!(set, WeekdaySet::full());
}

#[test]
fn integers_are_written_in_decimal() {
    let numbers = [
        0i64, 1, 9, 10, 11, 99, 100, 1_735_065_000, -1, -9, -10, -1_735_065_000, i64::MAX,
        i64::MIN, i64::MIN + 1, i64::MAX - 1,
    ];
    for n in numbers {
        assert_eq!(soundboard::clock::integer_text(n), n.to_string());
    }
    assert_eq!(soundboard::clock::integer_text(-42), "-42");
    assert_eq!(soundboard::clock::integer_text(1_735_065_000), "1735065000");
}
