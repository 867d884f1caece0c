use diary::date::{Date, Weekday};
use diary::entry::{Entry, EntryStore};
use diary::graph::{
    day_series, day_window, history, sample_on, series, week_mean, week_series, Field, Point,
    ZoomLevel, DAY_POINTS, WEEK_BUCKETS,
};
use diary::measure::Measurement;

fn ymd(year: i32, month: u8, day: u8) -> Date {
    Date::from_calendar_date(year, month, day).unwrap()
}

fn measure(x: f64) -> Measurement {
    Measurement::from_milli((x * 1000.0).round() as u32)
}

fn value(p: &Point) -> f64 {
    p.y.milli() as f64 / 1000.0
}

fn weighed(date: Date, kg: f64) -> Entry {
    Entry::new(date, String::new(), Some(measure(kg)), None)
}

fn girth(date: Date, cm: f64) -> Entry {
    Entry::new(date, String::new(), None, Some(measure(cm)))
}

fn values(points: &[Point]) -> Vec<f64> {
    points.iter().map(value).collect()
}

fn offsets(points: &[Point]) -> Vec<u32> {
    points.iter().map(|p| p.x).collect()
}

#[test]
fn seven_point_day_window_with_one_weight_on_its_last_day() {
    let last = ymd(2024, 3, 15);
    let mut store = EntryStore::new();
    store.upsert(weighed(last, 80.0));
    let points = day_series(&store, last, 7, Field::Weight);
    assert_eq!(points.len(), 7);
    assert_eq!(offsets(&points), vec![0, 1, 2, 3, 4, 5, 6]);
    assert_eq!(values(&points), vec![0.0, 0.0, 0.0, 0.0, 0.0, 0.0, 80.0]);
    let non_zero: Vec<&Point> = points.iter().filter(|p| p.y.milli() != 0).collect();
    assert_eq!(non_zero.len(), 1);
    assert_eq!(non_zero[0].x, 6);
    assert_eq!(value(non_zero[0]), 80.0);
}

#[test]
fn day_zoom_shows_the_week_that_ends_with_the_reference_day() {
    let last = ymd(2024, 3, 15);
    let mut store = EntryStore::new();
    store.upsert(weighed(last, 80.0));
    store.upsert(weighed(ymd(2024, 3, 8), 81.5));
    store.upsert(weighed(ymd(2024, 3, 7), 99.0));
    store.upsert(weighed(ymd(2024, 3, 16), 98.0));
    store.upsert(weighed(ymd(2024, 3, 12), 80.7));
    let points = series(&store, last, ZoomLevel::Day, Field::Weight);
    assert_eq!(points.len(), DAY_POINTS as usize);
    assert_eq!(offsets(&points), vec![0, 1, 2, 3, 4, 5, 6, 7]);
    assert_eq!(values(&points), vec![81.5, 0.0, 0.0, 0.0, 80.7, 0.0, 0.0, 80.0]);
    assert_eq!(
        last.prev_occurrence(last.weekday()).unwrap(),
        ymd(2024, 3, 8),
    );
}

#[test]
fn day_zoom_of_an_empty_store_is_all_zero() {
    let store = EntryStore::new();
    let points = series(&store, ymd(2024, 3, 15), ZoomLevel::Day, Field::Weight);
    assert_eq!(values(&points), vec![0.0; 8]);
    assert_eq!(offsets(&points), vec![0, 1, 2, 3, 4, 5, 6, 7]);
}

#[test]
fn day_series_of_no_points_is_empty() {
    let mut store = EntryStore::new();
    store.upsert(weighed(ymd(2024, 3, 15), 80.0));
    assert!(day_series(&store, ymd(2024, 3, 15), 0, Field::Weight).is_empty());
    let one = day_series(&store, ymd(2024, 3, 15), 1, Field::Weight);
    assert_eq!(one, vec![Point { x: 0, y: measure(80.0) }]);
}

#[test]
fn day_series_at_the_start_of_the_calendar() {
    let first = Date::from_julian_day(diary::date::MIN_JULIAN_DAY).unwrap();
    let mut store = EntryStore::new();
    store.upsert(weighed(first, 80.0));
    let points = day_series(&store, first, 255, Field::Weight);
    assert_eq!(points.len(), 255);
    assert_eq!(value(&points[254]), 80.0);
    assert!(points[..254].iter().all(|p| p.y.milli() == 0));
}

#[test]
fn an_entry_without_the_measurement_plots_as_zero() {
    let last = ymd(2024, 3, 15);
    let mut store = EntryStore::new();
    store.upsert(Entry::new(last, "walked".to_string(), None, None));
    store.upsert(girth(ymd(2024, 3, 14), 91.0));
    assert_eq!(values(&series(&store, last, ZoomLevel::Day, Field::Weight)), vec![0.0; 8]);
    assert_eq!(
        values(&series(&store, last, ZoomLevel::Day, Field::Waist)),
        vec![0.0, 0.0, 0.0, 0.0, 0.0, 0.0, 91.0, 0.0]
    );
}

#[test]
fn week_bucket_of_three_samples_is_their_mean() {
    let monday = ymd(2024, 3, 11);
    assert_eq!(monday.weekday(), Weekday::Monday);
    let mut store = EntryStore::new();
    store.upsert(weighed(ymd(2024, 3, 11), 70.0));
    store.upsert(weighed(ymd(2024, 3, 13), 80.0));
    store.upsert(weighed(ymd(2024, 3, 17), 90.0));
    assert_eq!(week_mean(&store, monday.to_julian_day(), Field::Weight), 80_000);
    assert_eq!(week_mean(&store, monday.to_julian_day() - 7, Field::Weight), 0);
    assert_eq!(week_mean(&store, monday.to_julian_day() + 7, Field::Weight), 0);
    assert_eq!(week_mean(&store, monday.to_julian_day(), Field::Waist), 0);
    let points = series(&store, ymd(2024, 3, 14), ZoomLevel::Week, Field::Weight);
    assert_eq!(points.len(), WEEK_BUCKETS as usize);
    assert_eq!(offsets(&points), vec![0, 1, 2, 3, 4, 5, 6, 7]);
    assert_eq!(values(&points), vec![0.0, 0.0, 0.0, 0.0, 0.0, 0.0, 0.0, 80.0]);
}

#[test]
fn week_buckets_run_from_monday_to_sunday() {
    let mut store = EntryStore::new();
    store.upsert(weighed(ymd(2024, 3, 10), 60.0));
    store.upsert(weighed(ymd(2024, 3, 11), 70.0));
    store.upsert(weighed(ymd(2024, 3, 17), 72.0));
    store.upsert(weighed(ymd(2024, 3, 18), 90.0));
    for reference in [ymd(2024, 3, 18), ymd(2024, 3, 20), ymd(2024, 3, 24)] {
        let points = series(&store, reference, ZoomLevel::Week, Field::Weight);
        assert_eq!(values(&points), vec![0.0, 0.0, 0.0, 0.0, 0.0, 60.0, 71.0, 90.0]);
    }
    let earlier = series(&store, ymd(2024, 3, 17), ZoomLevel::Week, Field::Weight);
    assert_eq!(values(&earlier), vec![0.0, 0.0, 0.0, 0.0, 0.0, 0.0, 60.0, 71.0]);
}

#[test]
fn week_series_oldest_bucket_comes_first() {
    let reference = ymd(2024, 3, 14);
    let mut store = EntryStore::new();
    store.upsert(weighed(ymd(2024, 1, 22), 75.0));
    store.upsert(weighed(ymd(2024, 1, 21), 99.0));
    store.upsert(weighed(ymd(2024, 2, 29), 77.0));
    let points = week_series(&store, reference, 8, Field::Weight);
    assert_eq!(values(&points), vec![75.0, 0.0, 0.0, 0.0, 0.0, 77.0, 0.0, 0.0]);
    let three = week_series(&store, reference, 3, Field::Weight);
    assert_eq!(values(&three), vec![77.0, 0.0, 0.0]);
    assert!(week_series(&store, reference, 0, Field::Weight).is_empty());
}

#[test]
fn week_mean_is_rounded_down_to_a_thousandth() {
    let monday = ymd(2024, 3, 11);
    let mut store = EntryStore::new();
    store.upsert(Entry::new(monday, String::new(), Some(Measurement::from_milli(1)), None));
    store.upsert(Entry::new(
        ymd(2024, 3, 12),
        String::new(),
        Some(Measurement::from_milli(2)),
        None,
    ));
    assert_eq!(week_mean(&store, monday.to_julian_day(), Field::Weight), 1);
    store.upsert(Entry::new(
        ymd(2024, 3, 13),
        String::new(),
        Some(Measurement::from_milli(u32::MAX)),
        None,
    ));
    assert_eq!(
        week_mean(&store, monday.to_julian_day(), Field::Weight) as u64,
        (1 + 2 + u32::MAX as u64) / 3
    );
}

#[test]
fn week_mean_of_seven_largest_samples_does_not_overflow() {
    let monday = ymd(2024, 3, 11);
    let mut store = EntryStore::new();
    for i in 0..7 {
        store.upsert(Entry::new(
            monday.checked_add_days(i).unwrap(),
            String::new(),
            Some(Measurement::from_milli(u32::MAX)),
            None,
        ));
    }
    assert_eq!(week_mean(&store, monday.to_julian_day(), Field::Weight), u32::MAX);
}

#[test]
fn month_zoom_plots_nothing() {
    let mut store = EntryStore::new();
    store.upsert(weighed(ymd(2024, 3, 15), 80.0));
    assert!(series(&store, ymd(2024, 3, 15), ZoomLevel::Month, Field::Weight).is_empty());
    assert!(series(&store, ymd(2024, 3, 15), ZoomLevel::Month, Field::Waist).is_empty());
}

#[test]
fn weight_and_waist_are_graphed_independently() {
    let last = ymd(2024, 3, 15);
    let mut store = EntryStore::new();
    store.upsert(Entry::new(last, String::new(), Some(measure(80.0)), Some(measure(90.5))));
    store.upsert(girth(ymd(2024, 3, 13), 91.5));
    let weights = series(&store, last, ZoomLevel::Day, Field::Weight);
    let waists = series(&store, last, ZoomLevel::Day, Field::Waist);
    assert_eq!(values(&weights), vec![0.0, 0.0, 0.0, 0.0, 0.0, 0.0, 0.0, 80.0]);
    assert_eq!(values(&waists), vec![0.0, 0.0, 0.0, 0.0, 0.0, 91.5, 0.0, 90.5]);
    let weeks = series(&store, last, ZoomLevel::Week, Field::Waist);
    assert_eq!(value(&weeks[7]), 91.0);
}

#[test]
fn samples_are_looked_up_by_day() {
    let d = ymd(2024, 3, 15);
    let mut store = EntryStore::new();
    store.upsert(Entry::new(d, String::new(), Some(measure(80.0)), None));
    assert_eq!(sample_on(&store, d.to_julian_day(), Field::Weight), Some(80_000));
    assert_eq!(sample_on(&store, d.to_julian_day(), Field::Waist), None);
    assert_eq!(sample_on(&store, d.to_julian_day() + 1, Field::Weight), None);
}

#[test]
fn zoom_levels_are_ordered() {
    assert_eq!(ZoomLevel::Day.zoom_out(), ZoomLevel::Week);
    assert_eq!(ZoomLevel::Week.zoom_out(), ZoomLevel::Month);
    assert_eq!(ZoomLevel::Month.zoom_out(), ZoomLevel::Month);
    assert_eq!(ZoomLevel::Month.zoom_in(), ZoomLevel::Week);
    assert_eq!(ZoomLevel::Week.zoom_in(), ZoomLevel::Day);
    assert_eq!(ZoomLevel::Day.zoom_in(), ZoomLevel::Day);
    assert!(ZoomLevel::Day < ZoomLevel::Week);
    assert!(ZoomLevel::Week < ZoomLevel::Month);
}

#[test]
fn day_window_lists_the_days_of_the_day_graph() {
    let days = day_window(ymd(2024, 3, 2));
    assert_eq!(days.len(), 8);
    assert_eq!(days[0], ymd(2024, 2, 24));
    assert_eq!(days[5], ymd(2024, 2, 29));
    assert_eq!(days[7], ymd(2024, 3, 2));
    let labels: Vec<u8> = days.iter().map(|d| d.to_calendar_date().2).collect();
    assert_eq!(labels, vec![24, 25, 26, 27, 28, 29, 1, 2]);
}

#[test]
fn day_window_stops_at_the_start_of_the_calendar() {
    let first = Date::from_julian_day(diary::date::MIN_JULIAN_DAY).unwrap();
    assert_eq!(day_window(first), vec![first]);
    let third = first.checked_add_days(2).unwrap();
    let days = day_window(third);
    assert_eq!(days.len(), 3);
    assert_eq!(days[0], first);
    assert_eq!(days[2], third);
}

#[test]
fn history_places_every_sample_by_its_distance_from_the_reference_day() {
    let reference = ymd(2024, 3, 15);
    let mut store = EntryStore::new();
    store.upsert(weighed(ymd(2024, 3, 16), 79.5));
    store.upsert(weighed(ymd(2024, 3, 1), 81.0));
    store.upsert(girth(ymd(2024, 3, 10), 91.0));
    store.upsert(weighed(reference, 80.0));
    store.upsert(Entry::new(ymd(2023, 3, 15), "a year ago".to_string(), None, None));
    store.upsert(Entry::new(ymd(2024, 3, 14), String::new(), Some(measure(0.0)), None));
    assert_eq!(
        history(&store, reference, Field::Weight),
        vec![(-14, measure(81.0)), (-1, measure(0.0)), (0, measure(80.0)), (1, measure(79.5))]
    );
    assert_eq!(history(&store, reference, Field::Waist), vec![(-5, measure(91.0))]);
    assert!(history(&EntryStore::new(), reference, Field::Weight).is_empty());
}

#[test]
fn history_spans_the_whole_calendar() {
    let first = Date::from_julian_day(diary::date::MIN_JULIAN_DAY).unwrap();
    let last = Date::from_julian_day(diary::date::MAX_JULIAN_DAY).unwrap();
    let mut store = EntryStore::new();
    store.upsert(weighed(first, 70.0));
    store.upsert(weighed(last, 71.0));
    let span = diary::date::MAX_JULIAN_DAY - diary::date::MIN_JULIAN_DAY;
    assert_eq!(
        history(&store, first, Field::Weight),
        vec![(0, measure(70.0)), (span, measure(71.0))]
    );
    assert_eq!(
        history(&store, last, Field::Weight),
        vec![(-span, measure(70.0)), (0, measure(71.0))]
    );
}
