use diary::date::{Date, Weekday, MAX_JULIAN_DAY, MIN_JULIAN_DAY};

fn ymd(year: i32, month: u8, day: u8) -> Date {
    Date::from_calendar_date(year, month, day).unwrap()
}

fn weekday_of_time(w: time::Weekday) -> Weekday {
    match w {
        time::Weekday::Monday => Weekday::Monday,
        time::Weekday::Tuesday => Weekday::Tuesday,
        time::Weekday::Wednesday => Weekday::Wednesday,
        time::Weekday::Thursday => Weekday::Thursday,
        time::Weekday::Friday => Weekday::Friday,
        time::Weekday::Saturday => Weekday::Saturday,
        time::Weekday::Sunday => Weekday::Sunday,
    }
}

fn time_weekday(w: Weekday) -> time::Weekday {
    match w {
        Weekday::Monday => time::Weekday::Monday,
        Weekday::Tuesday => time::Weekday::Tuesday,
        Weekday::Wednesday => time::Weekday::Wednesday,
        Weekday::Thursday => time::Weekday::Thursday,
        Weekday::Friday => time::Weekday::Friday,
        Weekday::Saturday => time::Weekday::Saturday,
        Weekday::Sunday => time::Weekday::Sunday,
    }
}

const WEEK: [Weekday; 7] = [
    Weekday::Monday,
    Weekday::Tuesday,
    Weekday::Wednesday,
    Weekday::Thursday,
    Weekday::Friday,
    Weekday::Saturday,
    Weekday::Sunday,
];

#[test]
fn calendar_dates_have_known_julian_days() {
    assert_eq!(ymd(2000, 1, 1).to_julian_day(), 2_451_545);
    assert_eq!(ymd(2019, 1, 1).to_julian_day(), 2_458_485);
    assert_eq!(ymd(2019, 12, 31).to_julian_day(), 2_458_849);
    assert_eq!(ymd(-4713, 11, 24).to_julian_day(), 0);
}

#[test]
fn julian_days_have_known_calendar_dates() {
    assert_eq!(Date::from_julian_day(2_451_545).unwrap().to_calendar_date(), (2000, 1, 1));
    assert_eq!(Date::from_julian_day(2_458_849).unwrap().to_calendar_date(), (2019, 12, 31));
    assert_eq!(Date::from_julian_day(0).unwrap().to_calendar_date(), (-4713, 11, 24));
    assert_eq!(ymd(2024, 2, 29).to_calendar_date(), (2024, 2, 29));
}

#[test]
fn impossible_calendar_dates_are_refused() {
    assert_eq!(Date::from_calendar_date(2019, 2, 29), None);
    assert_eq!(Date::from_calendar_date(2019, 13, 1), None);
    assert_eq!(Date::from_calendar_date(2019, 0, 1), None);
    assert_eq!(Date::from_calendar_date(2019, 4, 31), None);
    assert_eq!(Date::from_calendar_date(2019, 4, 0), None);
    assert_eq!(Date::from_calendar_date(10_000, 1, 1), None);
    assert_eq!(Date::from_calendar_date(-10_000, 1, 1), None);
}

#[test]
fn julian_day_range_is_the_calendar_range() {
    assert_eq!(ymd(-9999, 1, 1).to_julian_day(), MIN_JULIAN_DAY);
    assert_eq!(ymd(9999, 12, 31).to_julian_day(), MAX_JULIAN_DAY);
    assert_eq!(time::Date::MIN.to_julian_day(), MIN_JULIAN_DAY);
    assert_eq!(time::Date::MAX.to_julian_day(), MAX_JULIAN_DAY);
    assert!(Date::from_julian_day(MIN_JULIAN_DAY).is_some());
    assert!(Date::from_julian_day(MAX_JULIAN_DAY).is_some());
    assert_eq!(Date::from_julian_day(MIN_JULIAN_DAY - 1), None);
    assert_eq!(Date::from_julian_day(MAX_JULIAN_DAY + 1), None);
    assert_eq!(Date::from_julian_day(i32::MAX), None);
    assert_eq!(Date::from_julian_day(i32::MIN), None);
}

#[test]
fn dates_are_ordered_by_day() {
    assert!(ymd(2024, 3, 1) > ymd(2024, 2, 29));
    assert!(ymd(2023, 12, 31) < ymd(2024, 1, 1));
    assert_eq!(ymd(2024, 3, 1), Date::from_julian_day(ymd(2024, 3, 1).to_julian_day()).unwrap());
}

#[test]
fn weekdays_of_known_dates() {
    assert_eq!(ymd(2019, 1, 1).weekday(), Weekday::Tuesday);
    assert_eq!(ymd(2019, 2, 1).weekday(), Weekday::Friday);
    assert_eq!(ymd(2019, 4, 1).weekday(), Weekday::Monday);
    assert_eq!(ymd(2019, 5, 1).weekday(), Weekday::Wednesday);
    assert_eq!(ymd(2019, 6, 1).weekday(), Weekday::Saturday);
    assert_eq!(ymd(2019, 8, 1).weekday(), Weekday::Thursday);
    assert_eq!(ymd(2019, 9, 1).weekday(), Weekday::Sunday);
    assert_eq!(Date::from_julian_day(0).unwrap().weekday(), Weekday::Monday);
    assert_eq!(Date::from_julian_day(-1).unwrap().weekday(), Weekday::Sunday);
}

#[test]
fn weekdays_agree_with_time() {
    let mut days: Vec<i32> = (-30..30).collect();
    days.extend(2_459_000..2_459_400);
    days.extend(MIN_JULIAN_DAY..MIN_JULIAN_DAY + 15);
    days.extend(MAX_JULIAN_DAY - 15..=MAX_JULIAN_DAY);
    for j in days {
        let ours = Date::from_julian_day(j).unwrap();
        let theirs = time::Date::from_julian_day(j).unwrap();
        assert_eq!(ours.weekday(), weekday_of_time(theirs.weekday()), "day {}", j);
        let (y, m, d) = ours.to_calendar_date();
        assert_eq!((y, m, d), (theirs.year(), u8::from(theirs.month()), theirs.day()));
        assert_eq!(Date::from_calendar_date(y, m, d), Some(ours));
    }
}

#[test]
fn weekday_numbers() {
    assert_eq!(Weekday::Monday.number_days_from_monday(), 0);
    assert_eq!(Weekday::Sunday.number_days_from_monday(), 6);
    assert_eq!(Weekday::Monday.number_from_monday(), 1);
    assert_eq!(Weekday::Thursday.number_from_monday(), 4);
    assert_eq!(Weekday::Sunday.number_from_monday(), 7);
}

#[test]
fn next_and_previous_day() {
    assert_eq!(ymd(2019, 1, 31).next_day(), Some(ymd(2019, 2, 1)));
    assert_eq!(ymd(2019, 12, 31).next_day(), Some(ymd(2020, 1, 1)));
    assert_eq!(ymd(2020, 2, 28).next_day(), Some(ymd(2020, 2, 29)));
    assert_eq!(ymd(2019, 2, 1).previous_day(), Some(ymd(2019, 1, 31)));
    assert_eq!(ymd(2020, 1, 1).previous_day(), Some(ymd(2019, 12, 31)));
    assert_eq!(ymd(9999, 12, 31).next_day(), None);
    assert_eq!(ymd(-9999, 1, 1).previous_day(), None);
}

#[test]
fn adding_days() {
    assert_eq!(ymd(2024, 2, 28).checked_add_days(2), Some(ymd(2024, 3, 1)));
    assert_eq!(ymd(2024, 3, 1).checked_add_days(-2), Some(ymd(2024, 2, 28)));
    assert_eq!(ymd(2024, 3, 1).checked_add_days(0), Some(ymd(2024, 3, 1)));
    assert_eq!(ymd(9999, 12, 31).checked_add_days(1), None);
    assert_eq!(ymd(-9999, 1, 1).checked_add_days(-1), None);
    assert_eq!(ymd(2024, 3, 1).checked_add_days(i32::MAX), None);
    assert_eq!(ymd(2024, 3, 1).checked_add_days(i32::MIN), None);
}

#[test]
fn previous_occurrence_of_a_weekday() {
    assert_eq!(ymd(2023, 6, 28).prev_occurrence(Weekday::Monday), Some(ymd(2023, 6, 26)));
    assert_eq!(ymd(2023, 6, 19).prev_occurrence(Weekday::Monday), Some(ymd(2023, 6, 12)));
    let d = ymd(2023, 6, 28);
    assert_eq!(d.prev_occurrence(d.weekday()), Some(ymd(2023, 6, 21)));
}

#[test]
fn nth_previous_occurrence_of_a_weekday() {
    assert_eq!(ymd(2023, 6, 27).nth_prev_occurrence(Weekday::Monday, 3), Some(ymd(2023, 6, 12)));
    assert_eq!(ymd(2023, 6, 26).nth_prev_occurrence(Weekday::Monday, 3), Some(ymd(2023, 6, 5)));
    assert_eq!(ymd(2023, 6, 26).nth_prev_occurrence(Weekday::Monday, 0), None);
    assert_eq!(ymd(2023, 6, 26).nth_prev_occurrence(Weekday::Monday, 1), Some(ymd(2023, 6, 19)));
}

#[test]
fn previous_occurrences_agree_with_time() {
    for j in 2_460_000..2_460_030 {
        let ours = Date::from_julian_day(j).unwrap();
        let theirs = time::Date::from_julian_day(j).unwrap();
        for w in WEEK {
            for n in 1..4u8 {
                let expected = theirs.nth_prev_occurrence(time_weekday(w), n).to_julian_day();
                assert_eq!(ours.nth_prev_occurrence(w, n).unwrap().to_julian_day(), expected);
            }
            let expected = theirs.prev_occurrence(time_weekday(w)).to_julian_day();
            assert_eq!(ours.prev_occurrence(w).unwrap().to_julian_day(), expected);
        }
    }
}

#[test]
fn previous_occurrence_before_the_calendar_is_none() {
    let first = Date::from_julian_day(MIN_JULIAN_DAY).unwrap();
    for w in WEEK {
        assert_eq!(first.prev_occurrence(w), None);
    }
    let second = Date::from_julian_day(MIN_JULIAN_DAY + 1).unwrap();
    assert_eq!(second.prev_occurrence(first.weekday()), Some(first));
    assert_eq!(second.nth_prev_occurrence(first.weekday(), 2), None);
}
