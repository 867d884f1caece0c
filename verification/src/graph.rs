//! The points that a trend graph plots: one measurement per day, or its mean per week.

use crate::date::{julian_in_range, week_start_day, Date, MAX_JULIAN_DAY, MIN_JULIAN_DAY};
use crate::entry::{lookup, rank, views, EntryStore, EntryView};
use crate::measure::Measurement;
use vstd::prelude::*;

verus! {

/// How many days the day-by-day graph shows: the reference day and the seven before it.
pub const DAY_POINTS: u8 = 8;

/// How many weeks the week-by-week graph shows: the reference day's week and the seven
/// before it.
pub const WEEK_BUCKETS: u8 = 8;

/// The granularity of a graph. Zooming out goes from days to weeks to months, and the
/// levels are ordered from fine to coarse.
#[derive(Clone, Copy, Debug, PartialEq, Eq, Structural, PartialOrd, Ord, Hash)]
pub enum ZoomLevel {
    Day,
    Week,
    Month,
}

impl ZoomLevel {
    /// The next coarser level; `Month` is the coarsest and stays.
    pub open spec fn coarser(self) -> ZoomLevel {
        match self {
            ZoomLevel::Day => ZoomLevel::Week,
            ZoomLevel::Week => ZoomLevel::Month,
            ZoomLevel::Month => ZoomLevel::Month,
        }
    }

    /// The next finer level; `Day` is the finest and stays.
    pub open spec fn finer(self) -> ZoomLevel {
        match self {
            ZoomLevel::Day => ZoomLevel::Day,
            ZoomLevel::Week => ZoomLevel::Day,
            ZoomLevel::Month => ZoomLevel::Week,
        }
    }

    /// The next coarser level; `Month` is the coarsest and stays.
    #[verifier::when_used_as_spec(coarser)]
    pub fn zoom_out(self) -> (z: ZoomLevel)
        ensures
            z == self.coarser(),
    {
        match self {
            ZoomLevel::Day => ZoomLevel::Week,
            ZoomLevel::Week => ZoomLevel::Month,
            ZoomLevel::Month => ZoomLevel::Month,
        }
    }

    /// The next finer level; `Day` is the finest and stays.
    #[verifier::when_used_as_spec(finer)]
    pub fn zoom_in(self) -> (z: ZoomLevel)
        ensures
            z == self.finer(),
    {
        match self {
            ZoomLevel::Day => ZoomLevel::Day,
            ZoomLevel::Week => ZoomLevel::Day,
            ZoomLevel::Month => ZoomLevel::Week,
        }
    }
}

/// Which of an entry's two measurements a graph shows.
#[derive(Clone, Copy, Debug, PartialEq, Eq, Structural, Hash)]
pub enum Field {
    Weight,
    Waist,
}

/// One point of a graph: `x` counts days or weeks from the start of the window, `y` is
/// the value there. A `y` of zero says that there is nothing to plot at `x`.
#[derive(Clone, Copy, Debug, PartialEq, Eq, Structural, Hash)]
pub struct Point {
    pub x: u32,
    pub y: Measurement,
}

/// Points as pairs of numbers: the offset and the value in thousandths.
pub open spec fn plotted(points: Seq<Point>) -> Seq<(int, int)> {
    points.map_values(|p: Point| (p.x as int, p.y.milli as int))
}

/// The chosen measurement of an entry, in thousandths, if it was taken.
pub open spec fn measurement_of(e: EntryView, field: Field) -> Option<nat> {
    match field {
        Field::Weight => e.weight_kg,
        Field::Waist => e.waist_cm,
    }
}

/// The chosen measurement taken on `day`, if the store has an entry for that day and
/// the entry has the measurement.
pub open spec fn sample(s: Seq<EntryView>, day: int, field: Field) -> Option<nat> {
    match lookup(s, day) {
        Some(e) => measurement_of(e, field),
        None => None,
    }
}

/// What is plotted for a day: its sample, or zero where there is none.
pub open spec fn sample_or_zero(s: Seq<EntryView>, day: int, field: Field) -> int {
    match sample(s, day, field) {
        Some(v) => v as int,
        None => 0,
    }
}

/// The day-by-day graph of `count` days from `first_day` on: point `x` is the sample of
/// day `first_day + x`.
pub open spec fn day_points(s: Seq<EntryView>, first_day: int, count: nat, field: Field) -> Seq<
    (int, int),
> {
    Seq::new(count, |x: int| (x, sample_or_zero(s, first_day + x, field)))
}

/// The sum of the samples of the `days` days from `first_day` on.
pub open spec fn span_sum(s: Seq<EntryView>, first_day: int, days: nat, field: Field) -> int
    decreases days,
{
    if days == 0 {
        0
    } else {
        span_sum(s, first_day, (days - 1) as nat, field) + sample_or_zero(
            s,
            first_day + days - 1,
            field,
        )
    }
}

/// The number of samples among the `days` days from `first_day` on.
pub open spec fn span_count(s: Seq<EntryView>, first_day: int, days: nat, field: Field) -> int
    decreases days,
{
    if days == 0 {
        0
    } else {
        span_count(s, first_day, (days - 1) as nat, field) + if sample(
            s,
            first_day + days - 1,
            field,
        ) is Some {
            1int
        } else {
            0int
        }
    }
}

/// The mean of the samples of the `days` days from `first_day` on, rounded down to a
/// whole thousandth; zero where these days have no sample.
pub open spec fn span_mean(s: Seq<EntryView>, first_day: int, days: nat, field: Field) -> int {
    let n = span_count(s, first_day, days, field);
    if n == 0 {
        0
    } else {
        span_sum(s, first_day, days, field) / n
    }
}

/// The Monday that starts bucket `x` of a week-by-week graph of `weeks` weeks: the last
/// bucket is the week of `reference`, each bucket before it one week earlier.
pub open spec fn bucket_start(reference: int, weeks: nat, x: int) -> int {
    week_start_day(reference) - 7 * (weeks - 1 - x)
}

/// The week-by-week graph of the `weeks` weeks that end with the week of `reference`:
/// point `x` is the mean of the samples of the seven days of bucket `x`.
pub open spec fn week_points(s: Seq<EntryView>, reference: int, weeks: nat, field: Field) -> Seq<
    (int, int),
> {
    Seq::new(weeks, |x: int| (x, span_mean(s, bucket_start(reference, weeks, x), 7, field)))
}

/// The graph at a zoom level. Days: the eight days that end with `reference`. Weeks:
/// the eight weeks that end with the week of `reference`. Months are not graphed: the
/// series is empty.
pub open spec fn series_points(
    s: Seq<EntryView>,
    reference: int,
    zoom: ZoomLevel,
    field: Field,
) -> Seq<(int, int)> {
    match zoom {
        ZoomLevel::Day => day_points(s, reference - (DAY_POINTS - 1), DAY_POINTS as nat, field),
        ZoomLevel::Week => week_points(s, reference, WEEK_BUCKETS as nat, field),
        ZoomLevel::Month => Seq::empty(),
    }
}

/// Every sample of the store, oldest first, as a pair: the day's distance from
/// `reference` in days, negative for days before it, and the value in thousandths.
/// Entries without the measurement are passed over.
pub open spec fn history_points(s: Seq<EntryView>, reference: int, field: Field) -> Seq<
    (int, int),
>
    decreases s.len(),
{
    if s.len() == 0 {
        Seq::empty()
    } else {
        let earlier = history_points(s.drop_last(), reference, field);
        match measurement_of(s.last(), field) {
            Some(v) => earlier.push((s.last().date - reference, v as int)),
            None => earlier,
        }
    }
}

/// Samples as pairs of numbers: the distance in days and the value in thousandths.
pub open spec fn placed(samples: Seq<(i32, Measurement)>) -> Seq<(int, int)> {
    samples.map_values(|p: (i32, Measurement)| (p.0 as int, p.1.milli as int))
}

/// The chosen measurement taken on the day with the given Julian day number, in
/// thousandths.
pub fn sample_on(store: &EntryStore, julian_day: i32, field: Field) -> (r: Option<u32>)
    ensures
        match r {
            Some(v) => sample(store@, julian_day as int, field) == Some(v as nat),
            None => sample(store@, julian_day as int, field) is None,
        },
{
    match store.on_day(julian_day) {
        Some(e) => {
            let m = match field {
                Field::Weight => e.weight_kg,
                Field::Waist => e.waist_cm,
            };
            match m {
                Some(m) => Some(m.milli),
                None => None,
            }
        },
        None => None,
    }
}

/// Every sample of the store, oldest first, each with the distance of its day from
/// `reference` in days.
pub fn history(store: &EntryStore, reference: Date, field: Field) -> (samples: Vec<
    (i32, Measurement),
>)
    ensures
        placed(samples@) == history_points(store@, reference@, field),
{
    let entries = store.entries();
    let origin: i32 = reference.to_julian_day();
    let mut samples: Vec<(i32, Measurement)> = Vec::new();
    let mut i: usize = 0;
    while i < entries.len()
        invariant
            i <= entries.len(),
            views(entries@) == store@,
            origin == reference@,
            julian_in_range(origin as int),
            placed(samples@) == history_points(store@.take(i as int), reference@, field),
        decreases entries.len() - i,
    {
        let e = &entries[i];
        proof {
            assert(store@.take(i + 1).drop_last() =~= store@.take(i as int));
        }
        let m = match field {
            Field::Weight => e.weight_kg,
            Field::Waist => e.waist_cm,
        };
        match m {
            Some(m) => {
                let ghost before = samples@;
                samples.push((e.date.to_julian_day() - origin, m));
            },
            None => {},
        }
        i += 1;
    }
    assert(store@.take(i as int) =~= store@);
    samples
}

/// The day-by-day graph of the `count` days that end with `last`.
pub fn day_series(store: &EntryStore, last: Date, count: u8, field: Field) -> (points: Vec<Point>)
    ensures
        plotted(points@) == day_points(store@, last@ - (count - 1), count as nat, field),
        points@.len() == count,
{
    let first: i32 = last.to_julian_day() - (count as i32 - 1);
    let mut points: Vec<Point> = Vec::new();
    let mut x: u8 = 0;
    while x < count
        invariant
            first == last@ - (count - 1),
            MIN_JULIAN_DAY - 255 <= first <= MAX_JULIAN_DAY + 1,
            x <= count,
            points.len() == x,
            forall|i: int|
                0 <= i < x ==> (#[trigger] points[i]).x == i && points[i].y.milli
                    == sample_or_zero(store@, first + i, field),
        decreases count - x,
    {
        let y = match sample_on(store, first + x as i32, field) {
            Some(v) => v,
            None => 0,
        };
        points.push(Point { x: x as u32, y: Measurement { milli: y } });
        x += 1;
    }
    points
}

/// The first day of the day-by-day graph that ends with `reference`: seven days
/// earlier, or the calendar's first day where the calendar does not reach that far back.
pub open spec fn window_start(reference: int) -> int {
    if reference - (DAY_POINTS - 1) < MIN_JULIAN_DAY {
        MIN_JULIAN_DAY as int
    } else {
        reference - (DAY_POINTS - 1)
    }
}

/// The days that the day-by-day graph shows, first to last: the days from the window's
/// start to `reference`.
pub fn day_window(reference: Date) -> (days: Vec<Date>)
    ensures
        days@.len() == reference@ - window_start(reference@) + 1,
        forall|i: int|
            0 <= i < days@.len() ==> (#[trigger] days@[i])@ == window_start(reference@) + i,
{
    let last: i32 = reference.to_julian_day();
    let first: i32 = if last - (DAY_POINTS as i32 - 1) < MIN_JULIAN_DAY {
        MIN_JULIAN_DAY
    } else {
        last - (DAY_POINTS as i32 - 1)
    };
    let mut days: Vec<Date> = Vec::new();
    let mut day: i32 = first;
    while day <= last
        invariant
            first == window_start(reference@),
            last == reference@,
            julian_in_range(last as int),
            MIN_JULIAN_DAY <= first <= day <= last + 1,
            days@.len() == day - first,
            forall|i: int| 0 <= i < days@.len() ==> (#[trigger] days@[i])@ == first + i,
        decreases last + 1 - day,
    {
        match Date::from_julian_day(day) {
            Some(d) => {
                days.push(d);
            },
            None => {},
        }
        day += 1;
    }
    days
}

/// The mean of the samples of the seven days from `first_day` on, rounded down to a
/// whole thousandth; zero where the week has no sample.
pub fn week_mean(store: &EntryStore, first_day: i32, field: Field) -> (mean: u32)
    requires
        first_day <= i32::MAX - 7,
    ensures
        mean == span_mean(store@, first_day as int, 7, field),
{
    let mut sum: u64 = 0;
    let mut n: u64 = 0;
    let mut d: u8 = 0;
    while d < 7
        invariant
            first_day <= i32::MAX - 7,
            d <= 7,
            n <= d,
            sum <= n * 0xFFFF_FFFF,
            sum == span_sum(store@, first_day as int, d as nat, field),
            n == span_count(store@, first_day as int, d as nat, field),
        decreases 7 - d,
    {
        match sample_on(store, first_day + d as i32, field) {
            Some(v) => {
                sum += v as u64;
                n += 1;
            },
            None => {},
        }
        d += 1;
    }
    if n == 0 {
        0
    } else {
        assert(sum / n <= 0xFFFF_FFFF) by (nonlinear_arith)
            requires
                n > 0,
                sum <= n * 0xFFFF_FFFF,
        ;
        (sum / n) as u32
    }
}

/// The week-by-week graph of the `weeks` weeks that end with the week of `reference`.
pub fn week_series(store: &EntryStore, reference: Date, weeks: u8, field: Field) -> (points: Vec<
    Point,
>)
    ensures
        plotted(points@) == week_points(store@, reference@, weeks as nat, field),
        points@.len() == weeks,
{
    let day: i32 = reference.to_julian_day();
    let since_monday: u8 = reference.weekday().number_days_from_monday();
    let this_week: i32 = day - since_monday as i32;
    let mut points: Vec<Point> = Vec::new();
    let mut x: u8 = 0;
    while x < weeks
        invariant
            this_week == week_start_day(reference@),
            MIN_JULIAN_DAY - 6 <= this_week <= MAX_JULIAN_DAY,
            x <= weeks,
            points.len() == x,
            forall|i: int|
                0 <= i < x ==> (#[trigger] points[i]).x == i && points[i].y.milli == span_mean(
                    store@,
                    bucket_start(reference@, weeks as nat, i),
                    7,
                    field,
                ),
        decreases weeks - x,
    {
        let start: i32 = this_week - 7 * (weeks as i32 - 1 - x as i32);
        let y = week_mean(store, start, field);
        points.push(Point { x: x as u32, y: Measurement { milli: y } });
        x += 1;
    }
    points
}

/// The graph of one measurement at a zoom level, for the window that ends with
/// `reference`.
pub fn series(store: &EntryStore, reference: Date, zoom: ZoomLevel, field: Field) -> (points: Vec<
    Point,
>)
    ensures
        plotted(points@) == series_points(store@, reference@, zoom, field),
        points@.len() == series_points(store@, reference@, zoom, field).len(),
{
    match zoom {
        ZoomLevel::Day => day_series(store, reference, DAY_POINTS, field),
        ZoomLevel::Week => week_series(store, reference, WEEK_BUCKETS, field),
        ZoomLevel::Month => {
            let points: Vec<Point> = Vec::new();
            points
        },
    }
}

/// Whether two stores hold the same days and, on each day, the same value of the
/// chosen measurement. Their texts and their other measurement may differ.
pub open spec fn agree_on(a: Seq<EntryView>, b: Seq<EntryView>, field: Field) -> bool {
    &&& a.len() == b.len()
    &&& forall|i: int|
        0 <= i < a.len() ==> (#[trigger] a[i]).date == b[i].date && measurement_of(a[i], field)
            == measurement_of(b[i], field)
}

/// Two stores that agree on a measurement have the same sample of it on every day.
pub proof fn lemma_same_samples(a: Seq<EntryView>, b: Seq<EntryView>, field: Field, day: int)
    requires
        agree_on(a, b, field),
    ensures
        0 <= rank(a, day) <= a.len(),
        rank(a, day) == rank(b, day),
        sample(a, day, field) == sample(b, day, field),
    decreases a.len(),
{
    if a.len() > 0 {
        let a0 = a.drop_last();
        let b0 = b.drop_last();
        assert(agree_on(a0, b0, field));
        lemma_same_samples(a0, b0, field, day);
    }
}

/// Two stores that agree on a measurement have the same sum, count and mean of it over
/// every run of days.
pub proof fn lemma_same_spans(
    a: Seq<EntryView>,
    b: Seq<EntryView>,
    field: Field,
    first_day: int,
    days: nat,
)
    requires
        agree_on(a, b, field),
    ensures
        span_sum(a, first_day, days, field) == span_sum(b, first_day, days, field),
        span_count(a, first_day, days, field) == span_count(b, first_day, days, field),
        span_mean(a, first_day, days, field) == span_mean(b, first_day, days, field),
    decreases days,
{
    if days > 0 {
        lemma_same_spans(a, b, field, first_day, (days - 1) as nat);
        lemma_same_samples(a, b, field, first_day + days - 1);
    }
}

/// The graph of a measurement depends on nothing but the days that have an entry and
/// the values of that measurement: neither the texts nor the other measurement have a
/// part in it.
pub proof fn lemma_series_of_one_field(
    a: Seq<EntryView>,
    b: Seq<EntryView>,
    reference: int,
    zoom: ZoomLevel,
    field: Field,
)
    requires
        agree_on(a, b, field),
    ensures
        series_points(a, reference, zoom, field) == series_points(b, reference, zoom, field),
{
    match zoom {
        ZoomLevel::Day => {
            let first = reference - (DAY_POINTS - 1);
            let of_a = day_points(a, first, DAY_POINTS as nat, field);
            let of_b = day_points(b, first, DAY_POINTS as nat, field);
            assert forall|x: int| 0 <= x < DAY_POINTS implies #[trigger] of_a[x] == of_b[x] by {
                lemma_same_samples(a, b, field, first + x);
            }
        },
        ZoomLevel::Week => {
            let weeks = WEEK_BUCKETS as nat;
            let of_a = week_points(a, reference, weeks, field);
            let of_b = week_points(b, reference, weeks, field);
            assert forall|x: int| 0 <= x < weeks implies #[trigger] of_a[x] == of_b[x] by {
                lemma_same_spans(a, b, field, bucket_start(reference, weeks, x), 7);
            }
        },
        ZoomLevel::Month => {},
    }
}

/// Where the store holds but one entry, dated on the last day of a day-by-day graph,
/// the graph's last point shows that entry's measurement and every other point is zero.
pub proof fn lemma_lone_sample(e: EntryView, count: nat, field: Field, x: int)
    requires
        0 <= x < count,
    ensures
        day_points(seq![e], e.date - (count - 1), count, field)[x] == if x == count - 1 {
            (x, sample_or_zero(seq![e], e.date, field))
        } else {
            (x, 0int)
        },
        sample_or_zero(seq![e], e.date, field) == match measurement_of(e, field) {
            Some(v) => v as int,
            None => 0,
        },
{
    let s = seq![e];
    assert(rank(s.drop_last(), e.date) == 0);
    let day = e.date - (count - 1) + x;
    assert(rank(s.drop_last(), day) == 0);
}

/// A run of days has no more samples than days. Without a sample its mean is zero;
/// with samples its mean is their sum divided by their number, rounded down: the mean
/// times the number is at most the sum, and less than one more per sample below it.
pub proof fn lemma_span_mean(s: Seq<EntryView>, first_day: int, days: nat, field: Field)
    ensures
        0 <= span_count(s, first_day, days, field) <= days,
        0 <= span_sum(s, first_day, days, field),
        span_count(s, first_day, days, field) == 0 ==> span_sum(s, first_day, days, field) == 0
            && span_mean(s, first_day, days, field) == 0,
        span_count(s, first_day, days, field) * span_mean(s, first_day, days, field) <= span_sum(
            s,
            first_day,
            days,
            field,
        ),
        span_sum(s, first_day, days, field) < span_count(s, first_day, days, field) * (span_mean(
            s,
            first_day,
            days,
            field,
        ) + 1) || span_count(s, first_day, days, field) == 0,
    decreases days,
{
    if days > 0 {
        lemma_span_mean(s, first_day, (days - 1) as nat, field);
    }
    let n = span_count(s, first_day, days, field);
    let sum = span_sum(s, first_day, days, field);
    if n > 0 {
        assert(n * (sum / n) <= sum < n * (sum / n + 1)) by (nonlinear_arith)
            requires
                n > 0,
                sum >= 0,
        ;
    }
}

} // verus!
