//! Calendar days, counted as Julian day numbers.

use vstd::prelude::*;

verus! {

/// Julian day number of the earliest day a [`Date`] can hold, 1 January of the year -9999.
pub const MIN_JULIAN_DAY: i32 = -1_930_999;

/// Julian day number of the latest day a [`Date`] can hold, 31 December of the year 9999.
pub const MAX_JULIAN_DAY: i32 = 5_373_484;

/// A day of the week.
#[derive(Clone, Copy, Debug, PartialEq, Eq, Structural, Hash)]
pub enum Weekday {
    Monday,
    Tuesday,
    Wednesday,
    Thursday,
    Friday,
    Saturday,
    Sunday,
}

impl Weekday {
    /// Days since the Monday that starts the week: 0 for Monday, 6 for Sunday.
    pub open spec fn offset(self) -> int {
        match self {
            Weekday::Monday => 0,
            Weekday::Tuesday => 1,
            Weekday::Wednesday => 2,
            Weekday::Thursday => 3,
            Weekday::Friday => 4,
            Weekday::Saturday => 5,
            Weekday::Sunday => 6,
        }
    }

    /// The weekday that lies `n` days after a Monday, for `n` below 7.
    pub open spec fn at_offset(n: int) -> Weekday {
        if n == 0 {
            Weekday::Monday
        } else if n == 1 {
            Weekday::Tuesday
        } else if n == 2 {
            Weekday::Wednesday
        } else if n == 3 {
            Weekday::Thursday
        } else if n == 4 {
            Weekday::Friday
        } else if n == 5 {
            Weekday::Saturday
        } else {
            Weekday::Sunday
        }
    }

    /// Days since Monday, as the ISO week counts them from zero.
    pub fn number_days_from_monday(self) -> (n: u8)
        ensures
            n == self.offset(),
            n < 7,
    {
        match self {
            Weekday::Monday => 0,
            Weekday::Tuesday => 1,
            Weekday::Wednesday => 2,
            Weekday::Thursday => 3,
            Weekday::Friday => 4,
            Weekday::Saturday => 5,
            Weekday::Sunday => 6,
        }
    }

    /// The ISO weekday number: 1 for Monday, 7 for Sunday.
    pub fn number_from_monday(self) -> (n: u8)
        ensures
            n == self.offset() + 1,
    {
        self.number_days_from_monday() + 1
    }
}

/// The weekday of the day with the given Julian day number. Day 0 was a Monday.
pub open spec fn weekday_of(julian: int) -> Weekday {
    Weekday::at_offset(julian % 7)
}

/// The latest day strictly before `julian` that falls on `weekday`.
pub open spec fn prev_occurrence_day(julian: int, weekday: Weekday) -> int {
    julian - 1 - (julian - 1 - weekday.offset()) % 7
}

/// The Monday on or before `julian`: the first day of its ISO week.
pub open spec fn week_start_day(julian: int) -> int {
    julian - julian % 7
}

/// Whether a Julian day number names a day that a [`Date`] can hold.
pub open spec fn julian_in_range(julian: int) -> bool {
    MIN_JULIAN_DAY <= julian <= MAX_JULIAN_DAY
}

/// The Julian day number that `time::Date::from_calendar_date` followed by
/// `time::Date::to_julian_day` gives for a year, a month (1 to 12) and a day of the
/// month, or `None` where `time` rejects the combination.
pub uninterp spec fn julian_of_calendar(year: i32, month: u8, day: u8) -> Option<i32>;

/// The year, month (1 to 12) and day of the month that `time::Date::from_julian_day`
/// followed by `time::Date::to_calendar_date` gives for a Julian day number, or `None`
/// where `time` rejects the number.
pub uninterp spec fn calendar_of_julian(julian: i32) -> Option<(i32, u8, u8)>;

/// Calls `time::Month::try_from`, `time::Date::from_calendar_date` and
/// `time::Date::to_julian_day`. Nothing is claimed of the result beyond its name: it is
/// whatever `time` computes from these three numbers.
#[verifier::external_body]
fn calendar_to_julian(year: i32, month: u8, day: u8) -> (r: Option<i32>)
    ensures
        r == julian_of_calendar(year, month, day),
{
    let month = time::Month::try_from(month).ok()?;
    let date = time::Date::from_calendar_date(year, month, day).ok()?;
    Some(date.to_julian_day())
}

/// Calls `time::Date::from_julian_day` and `time::Date::to_calendar_date`. Claimed of
/// `time`: a Julian day number between `Date::MIN` and `Date::MAX` is accepted (these are
/// the two constants above, as `time` is built without its `large-dates` feature), the
/// month comes back as a number from 1 to 12 and the day from 1 to 31.
#[verifier::external_body]
fn julian_to_calendar(julian: i32) -> (r: Option<(i32, u8, u8)>)
    ensures
        r == calendar_of_julian(julian),
        julian_in_range(julian as int) ==> r is Some,
        r matches Some(c) ==> 1 <= c.1 <= 12 && 1 <= c.2 <= 31,
{
    let date = time::Date::from_julian_day(julian).ok()?;
    let (year, month, day) = date.to_calendar_date();
    Some((year, u8::from(month), day))
}

/// The remainder of `n` by 7, from 0 to 6 also where `n` is below zero.
fn rem7(n: i32) -> (r: i32)
    requires
        MIN_JULIAN_DAY - 7 <= n <= MAX_JULIAN_DAY,
    ensures
        r == n as int % 7,
        0 <= r < 7,
{
    // 1_931_013 is a multiple of 7 that lifts every such `n` above zero, where the
    // remainder of the division is the remainder counted from zero.
    (n + 1_931_013) % 7
}

/// A day of the proleptic Gregorian calendar, between the years -9999 and 9999.
///
/// Days are ordered and compared by their Julian day number, which is also the view.
#[derive(Clone, Copy, Debug, PartialEq, Eq, Structural, PartialOrd, Ord, Hash)]
pub struct Date {
    julian: i32,
}

impl View for Date {
    type V = int;

    closed spec fn view(&self) -> int {
        self.julian as int
    }
}

impl Date {
    #[verifier::type_invariant]
    spec fn in_range(self) -> bool {
        julian_in_range(self.julian as int)
    }

    /// The day with the given Julian day number, if it lies within the calendar's range.
    pub fn from_julian_day(julian: i32) -> (r: Option<Date>)
        ensures
            r is Some <==> julian_in_range(julian as int),
            r matches Some(d) ==> d@ == julian,
    {
        if MIN_JULIAN_DAY <= julian && julian <= MAX_JULIAN_DAY {
            Some(Date { julian })
        } else {
            None
        }
    }

    /// The Julian day number of this day.
    pub fn to_julian_day(self) -> (j: i32)
        ensures
            j == self@,
            julian_in_range(j as int),
    {
        proof {
            use_type_invariant(self);
        }
        self.julian
    }

    /// The day with the given year, month (1 to 12) and day of the month, where the
    /// calendar has such a day.
    pub fn from_calendar_date(year: i32, month: u8, day: u8) -> (r: Option<Date>)
        ensures
            match julian_of_calendar(year, month, day) {
                Some(j) => if julian_in_range(j as int) {
                    r matches Some(d) && d@ == j
                } else {
                    r is None
                },
                None => r is None,
            },
    {
        match calendar_to_julian(year, month, day) {
            Some(julian) => Date::from_julian_day(julian),
            None => None,
        }
    }

    /// The year, month (1 to 12) and day of the month of this day.
    pub fn to_calendar_date(self) -> (r: (i32, u8, u8))
        ensures
            calendar_of_julian(self@ as i32) == Some(r),
            1 <= r.1 <= 12,
            1 <= r.2 <= 31,
    {
        proof {
            use_type_invariant(self);
        }
        match julian_to_calendar(self.julian) {
            Some(c) => c,
            // Not reached: every day of the calendar has a year, a month and a day.
            None => (0, 1, 1),
        }
    }

    /// The day of the week.
    pub fn weekday(self) -> (w: Weekday)
        ensures
            w == weekday_of(self@),
    {
        proof {
            use_type_invariant(self);
        }
        let n: i32 = rem7(self.julian);
        if n == 0 {
            Weekday::Monday
        } else if n == 1 {
            Weekday::Tuesday
        } else if n == 2 {
            Weekday::Wednesday
        } else if n == 3 {
            Weekday::Thursday
        } else if n == 4 {
            Weekday::Friday
        } else if n == 5 {
            Weekday::Saturday
        } else {
            Weekday::Sunday
        }
    }

    /// The day after this one; `None` after the calendar's last day.
    pub fn next_day(self) -> (r: Option<Date>)
        ensures
            r is Some <==> self@ < MAX_JULIAN_DAY,
            r is Some <==> julian_in_range(self@ + 1),
            r matches Some(d) ==> d@ == self@ + 1,
    {
        proof {
            use_type_invariant(self);
        }
        if self.julian < MAX_JULIAN_DAY {
            Some(Date { julian: self.julian + 1 })
        } else {
            None
        }
    }

    /// The day before this one; `None` before the calendar's first day.
    pub fn previous_day(self) -> (r: Option<Date>)
        ensures
            r is Some <==> self@ > MIN_JULIAN_DAY,
            r is Some <==> julian_in_range(self@ - 1),
            r matches Some(d) ==> d@ == self@ - 1,
    {
        proof {
            use_type_invariant(self);
        }
        if self.julian > MIN_JULIAN_DAY {
            Some(Date { julian: self.julian - 1 })
        } else {
            None
        }
    }

    /// The day `days` after this one (before it, where `days` is negative), if the
    /// calendar reaches that far.
    pub fn checked_add_days(self, days: i32) -> (r: Option<Date>)
        ensures
            r is Some <==> julian_in_range(self@ + days),
            r matches Some(d) ==> d@ == self@ + days,
    {
        proof {
            use_type_invariant(self);
        }
        let target: i64 = self.julian as i64 + days as i64;
        if MIN_JULIAN_DAY as i64 <= target && target <= MAX_JULIAN_DAY as i64 {
            Some(Date { julian: target as i32 })
        } else {
            None
        }
    }

    /// The latest day strictly before this one that falls on `weekday`; `None` where
    /// that day lies before the calendar's first day.
    pub fn prev_occurrence(self, weekday: Weekday) -> (r: Option<Date>)
        ensures
            r is Some <==> julian_in_range(prev_occurrence_day(self@, weekday)),
            r matches Some(d) ==> d@ == prev_occurrence_day(self@, weekday),
    {
        self.nth_prev_occurrence(weekday, 1)
    }

    /// The `n`-th day strictly before this one that falls on `weekday`, counting
    /// backwards from 1; `None` where `n` is 0 or that day lies before the calendar's
    /// first day.
    pub fn nth_prev_occurrence(self, weekday: Weekday, n: u8) -> (r: Option<Date>)
        ensures
            r is Some <==> n > 0 && julian_in_range(
                prev_occurrence_day(self@, weekday) - 7 * (n - 1),
            ),
            r matches Some(d) ==> d@ == prev_occurrence_day(self@, weekday) - 7 * (n - 1),
    {
        proof {
            use_type_invariant(self);
        }
        if n == 0 {
            return None;
        }
        let back: i32 = rem7(self.julian - 1 - weekday.number_days_from_monday() as i32);
        let target: i32 = self.julian - 1 - back - 7 * (n as i32 - 1);
        if target >= MIN_JULIAN_DAY {
            Some(Date { julian: target })
        } else {
            None
        }
    }
}

/// Two dates with the same Julian day number are the same date.
pub proof fn lemma_same_day(a: Date, b: Date)
    requires
        a@ == b@,
    ensures
        a == b,
{
}

/// The previous occurrence of a weekday is the one day among the seven before
/// `julian` that falls on that weekday.
pub proof fn lemma_prev_occurrence_day(julian: int, weekday: Weekday)
    ensures
        julian - 7 <= prev_occurrence_day(julian, weekday) < julian,
        weekday_of(prev_occurrence_day(julian, weekday)) == weekday,
        forall|d: int|
            julian - 7 <= d < julian && weekday_of(d) == weekday ==> d == prev_occurrence_day(
                julian,
                weekday,
            ),
{
}

/// The first day of a week is a Monday, at most six days back.
pub proof fn lemma_week_start_day(julian: int)
    ensures
        julian - 6 <= week_start_day(julian) <= julian,
        weekday_of(week_start_day(julian)) == Weekday::Monday,
        week_start_day(julian) == if weekday_of(julian) == Weekday::Monday {
            julian
        } else {
            prev_occurrence_day(julian, Weekday::Monday)
        },
{
}

} // verus!
