use vstd::prelude::*;

verus! {

// ---------------------------------------------------------------------------
// The proleptic Gregorian calendar, as the `time` crate uses it
// ---------------------------------------------------------------------------

/// Earliest year a date can have (the `time` crate without `large-dates`).
pub open spec fn min_year() -> int {
    -9999
}

/// Latest year a date can have (the `time` crate without `large-dates`).
pub open spec fn max_year() -> int {
    9999
}

/// Leap years of the proleptic Gregorian calendar (astronomical numbering).
pub open spec fn is_leap_year(year: int) -> bool {
    (year % 4 == 0 && year % 100 != 0) || year % 400 == 0
}

/// Number of days of `month` (1 to 12) in `year`.
pub open spec fn days_in_month(year: int, month: int) -> int {
    if month == 2 {
        if is_leap_year(year) {
            29
        } else {
            28
        }
    } else if month == 4 || month == 6 || month == 9 || month == 11 {
        30
    } else {
        31
    }
}

/// A calendar date that exists and lies in the representable years.
pub open spec fn is_valid_date(year: int, month: int, day: int) -> bool {
    &&& min_year() <= year <= max_year()
    &&& 1 <= month <= 12
    &&& 1 <= day <= days_in_month(year, month)
}

/// A time of day: hours, minutes, seconds and nanoseconds in their ranges.
pub open spec fn is_valid_clock(hour: int, minute: int, second: int, nanosecond: int) -> bool {
    &&& 0 <= hour < 24
    &&& 0 <= minute < 60
    &&& 0 <= second < 60
    &&& 0 <= nanosecond < 1_000_000_000
}

/// Days from 0001-01-01 to the first day of `year`.
pub open spec fn days_before_year(year: int) -> int {
    let p = year - 1;
    365 * p + p / 4 - p / 100 + p / 400
}

/// Days from the first day of `year` to the first day of `month`.
pub open spec fn days_before_month(year: int, month: int) -> int {
    let common: int = if month == 1 {
        0
    } else if month == 2 {
        31
    } else if month == 3 {
        59
    } else if month == 4 {
        90
    } else if month == 5 {
        120
    } else if month == 6 {
        151
    } else if month == 7 {
        181
    } else if month == 8 {
        212
    } else if month == 9 {
        243
    } else if month == 10 {
        273
    } else if month == 11 {
        304
    } else {
        334
    };
    if month > 2 && is_leap_year(year) {
        common + 1
    } else {
        common
    }
}

/// Days from 0001-01-01 to the given date.
pub open spec fn day_number(year: int, month: int, day: int) -> int {
    days_before_year(year) + days_before_month(year, month) + day - 1
}

/// Seconds from 1970-01-01 00:00:00 UTC to the given civil time (leap
/// seconds are not counted, as in the Unix timestamp).
pub open spec fn civil_unix_seconds(
    year: int,
    month: int,
    day: int,
    hour: int,
    minute: int,
    second: int,
) -> int {
    (day_number(year, month, day) - 719162) * 86400 + hour * 3600 + minute * 60 + second
}

/// Unix timestamp of -9999-01-01 00:00:00, the earliest representable instant.
pub open spec fn min_unix_seconds() -> int {
    -377705116800
}

/// Unix timestamp of +9999-12-31 23:59:59, the last representable second.
pub open spec fn max_unix_seconds() -> int {
    253402300799
}

/// Nanoseconds in one second.
pub open spec fn nanos_per_second() -> int {
    1_000_000_000
}

/// Nanoseconds since the Unix epoch of a civil time at a whole second.
pub open spec fn civil_instant(year: int, month: int, day: int, hour: int, minute: int, second: int) -> int {
    civil_unix_seconds(year, month, day, hour, minute, second) * nanos_per_second()
}

// ---------------------------------------------------------------------------
// The library's date-time value
// ---------------------------------------------------------------------------

/// A date and time of day in UTC, from -9999-01-01 00:00:00 to
/// +9999-12-31 23:59:59.999999999, with nanosecond resolution.
///
/// It holds, as plain values, what `time::UtcDateTime` holds; every value
/// names a calendar date and time of day that exist.
#[derive(Debug, Clone, Copy)]
pub struct UtcDateTime {
    year: i32,
    month: u8,
    day: u8,
    hour: u8,
    minute: u8,
    second: u8,
    nanosecond: u32,
}

impl UtcDateTime {
    pub closed spec fn spec_year(self) -> i32 {
        self.year
    }

    pub closed spec fn spec_month(self) -> u8 {
        self.month
    }

    pub closed spec fn spec_day(self) -> u8 {
        self.day
    }

    pub closed spec fn spec_hour(self) -> u8 {
        self.hour
    }

    pub closed spec fn spec_minute(self) -> u8 {
        self.minute
    }

    pub closed spec fn spec_second(self) -> u8 {
        self.second
    }

    pub closed spec fn spec_nanosecond(self) -> u32 {
        self.nanosecond
    }

    /// Every value is an existing date in the representable years, at an
    /// existing time of day.
    #[verifier::type_invariant]
    pub closed spec fn is_valid(self) -> bool {
        &&& is_valid_date(self.year as int, self.month as int, self.day as int)
        &&& is_valid_clock(
            self.hour as int,
            self.minute as int,
            self.second as int,
            self.nanosecond as int,
        )
    }

    /// The validity of the fields, stated over the accessors.
    pub open spec fn fields_valid(self) -> bool {
        &&& is_valid_date(self.spec_year() as int, self.spec_month() as int, self.spec_day() as int)
        &&& is_valid_clock(
            self.spec_hour() as int,
            self.spec_minute() as int,
            self.spec_second() as int,
            self.spec_nanosecond() as int,
        )
    }

    /// Whole seconds since 1970-01-01 00:00:00 UTC.
    pub open spec fn unix_seconds(self) -> int {
        civil_unix_seconds(
            self.spec_year() as int,
            self.spec_month() as int,
            self.spec_day() as int,
            self.spec_hour() as int,
            self.spec_minute() as int,
            self.spec_second() as int,
        )
    }

    /// Nanoseconds since 1970-01-01 00:00:00 UTC: the instant this value names.
    pub open spec fn instant(self) -> int {
        self.unix_seconds() * nanos_per_second() + self.spec_nanosecond()
    }

    /// The invariant, restated over the accessors.
    pub proof fn lemma_fields_valid(self)
        requires
            self.is_valid(),
        ensures
            self.fields_valid(),
    {
    }

    /// Creates the date and time from its calendar parts; `None` where the
    /// date does not exist, lies outside years -9999 to 9999, or the time of
    /// day is out of range.
    pub fn new(
        year: i32,
        month: u8,
        day: u8,
        hour: u8,
        minute: u8,
        second: u8,
        nanosecond: u32,
    ) -> (r: Option<UtcDateTime>)
        ensures
            r is Some <==> is_valid_date(year as int, month as int, day as int) && is_valid_clock(
                hour as int,
                minute as int,
                second as int,
                nanosecond as int,
            ),
            r matches Some(dt) ==> {
                &&& dt.spec_year() == year
                &&& dt.spec_month() == month
                &&& dt.spec_day() == day
                &&& dt.spec_hour() == hour
                &&& dt.spec_minute() == minute
                &&& dt.spec_second() == second
                &&& dt.spec_nanosecond() == nanosecond
            },
    {
        if !calendar_date_exists(year, month, day) {
            return None;
        }
        if hour >= 24 || minute >= 60 || second >= 60 || nanosecond >= 1_000_000_000 {
            return None;
        }
        Some(UtcDateTime { year, month, day, hour, minute, second, nanosecond })
    }

    pub fn year(&self) -> (r: i32)
        ensures
            r == self.spec_year(),
    {
        self.year
    }

    pub fn month(&self) -> (r: u8)
        ensures
            r == self.spec_month(),
    {
        self.month
    }

    pub fn day(&self) -> (r: u8)
        ensures
            r == self.spec_day(),
    {
        self.day
    }

    pub fn hour(&self) -> (r: u8)
        ensures
            r == self.spec_hour(),
    {
        self.hour
    }

    pub fn minute(&self) -> (r: u8)
        ensures
            r == self.spec_minute(),
    {
        self.minute
    }

    pub fn second(&self) -> (r: u8)
        ensures
            r == self.spec_second(),
    {
        self.second
    }

    pub fn nanosecond(&self) -> (r: u32)
        ensures
            r == self.spec_nanosecond(),
    {
        self.nanosecond
    }
}

// ---------------------------------------------------------------------------
// Calls into the `time` crate
// ---------------------------------------------------------------------------

/// `time::Date::from_calendar_date`, after `time::Month::try_from`: claims the
/// date is accepted exactly when its year lies in -9999..=9999, its month in
/// 1..=12 and its day in the days of that month.
#[verifier::external_body]
fn calendar_date_exists(year: i32, month: u8, day: u8) -> (r: bool)
    ensures
        r == is_valid_date(year as int, month as int, day as int),
{
    match time::Month::try_from(month) {
        Ok(m) => time::Date::from_calendar_date(year, m, day).is_ok(),
        Err(_) => false,
    }
}

/// `time::UtcDateTime::unix_timestamp`, on the `time` value with the same
/// calendar parts: claims the result is the whole seconds since
/// 1970-01-01 00:00:00 UTC of that civil time.
#[verifier::external_body]
pub(crate) fn unix_timestamp(dt: &UtcDateTime) -> (r: i64)
    ensures
        r == dt.unix_seconds(),
{
    let month = time::Month::try_from(dt.month).unwrap();
    let date = time::Date::from_calendar_date(dt.year, month, dt.day).unwrap();
    let clock = time::Time::from_hms_nano(dt.hour, dt.minute, dt.second, dt.nanosecond).unwrap();
    time::UtcDateTime::new(date, clock).unix_timestamp()
}

/// `time::UtcDateTime::checked_add` with `time::Duration::new(seconds, 0)`:
/// claims the sum is returned exactly when it lies in the representable
/// range, and that it is `seconds` later with the same nanosecond.
#[verifier::external_body]
pub(crate) fn checked_add_seconds(dt: &UtcDateTime, seconds: i64) -> (r: Option<UtcDateTime>)
    ensures
        r is Some <==> min_unix_seconds() <= dt.unix_seconds() + seconds <= max_unix_seconds(),
        r matches Some(t) ==> t.unix_seconds() == dt.unix_seconds() + seconds
            && t.spec_nanosecond() == dt.spec_nanosecond(),
{
    let month = time::Month::try_from(dt.month).unwrap();
    let date = time::Date::from_calendar_date(dt.year, month, dt.day).unwrap();
    let clock = time::Time::from_hms_nano(dt.hour, dt.minute, dt.second, dt.nanosecond).unwrap();
    let t = time::UtcDateTime::new(date, clock).checked_add(time::Duration::new(seconds, 0))?;
    let (year, month, day) = t.to_calendar_date();
    let (hour, minute, second, nanosecond) = t.as_hms_nano();
    Some(UtcDateTime { year, month: u8::from(month), day, hour, minute, second, nanosecond })
}

/// `time::UtcDateTime::now`: the current date and time; nothing is claimed of
/// which instant it is.
#[verifier::external_body]
pub(crate) fn utc_now() -> (r: UtcDateTime) {
    let t = time::UtcDateTime::now();
    let (year, month, day) = t.to_calendar_date();
    let (hour, minute, second, nanosecond) = t.as_hms_nano();
    UtcDateTime { year, month: u8::from(month), day, hour, minute, second, nanosecond }
}

// ---------------------------------------------------------------------------
// Times in the Copernicus wind products
// ---------------------------------------------------------------------------

/// Unix timestamp of 1990-01-01 00:00:00 UTC, the reference of the times in
/// the Copernicus wind products.
pub open spec fn unix_seconds_1990() -> int {
    civil_unix_seconds(1990, 1, 1, 0, 0, 0)
}

/// The offsets from 1990-01-01 00:00:00 that name a representable time.
pub open spec fn secs_since_1990_in_range(secs: int) -> bool {
    min_unix_seconds() <= unix_seconds_1990() + secs <= max_unix_seconds()
}

/// Makes the seconds since 1990-01-01 00:00:00 into a date and time, since
/// according to the datasheet the time is measured in seconds since that
/// date.
pub fn secs_since_1990_01_01_0_to_utcdatetime(secs: i64) -> (r: UtcDateTime)
    requires
        secs_since_1990_in_range(secs as int),
    ensures
        r.unix_seconds() == unix_seconds_1990() + secs,
        r.spec_nanosecond() == 0,
{
    let start = match UtcDateTime::new(1990, 1, 1, 0, 0, 0, 0) {
        Some(start) => start,
        None => {
            proof {
                assert(false);
            }
            return UtcDateTime { year: 1970, month: 1, day: 1, hour: 0, minute: 0, second: 0, nanosecond: 0 };
        },
    };
    match checked_add_seconds(&start, secs) {
        Some(r) => r,
        None => {
            proof {
                assert(false);
            }
            start
        },
    }
}

// ---------------------------------------------------------------------------
// Laws of the calendar
// ---------------------------------------------------------------------------

/// The earliest and latest representable civil times have the Unix
/// timestamps named by `min_unix_seconds` and `max_unix_seconds`.
pub proof fn lemma_unix_seconds_bounds()
    ensures
        civil_unix_seconds(-9999, 1, 1, 0, 0, 0) == min_unix_seconds(),
        civil_unix_seconds(9999, 12, 31, 23, 59, 59) == max_unix_seconds(),
        civil_unix_seconds(1970, 1, 1, 0, 0, 0) == 0,
        unix_seconds_1990() == 631152000,
{
}

/// From one year to the next, the day count grows by the length of the year.
pub proof fn lemma_days_before_next_year(year: int)
    ensures
        days_before_year(year + 1) == days_before_year(year) + if is_leap_year(year) {
            366int
        } else {
            365int
        },
{
    let p = year - 1;
    assert((p + 1) / 4 == p / 4 + if year % 4 == 0 { 1int } else { 0int });
    assert((p + 1) / 100 == p / 100 + if year % 100 == 0 { 1int } else { 0int });
    assert((p + 1) / 400 == p / 400 + if year % 400 == 0 { 1int } else { 0int });
}

/// Later years start later: at least 365 days per year in between.
pub proof fn lemma_days_before_year_grows(a: int, b: int)
    requires
        a <= b,
    ensures
        days_before_year(a) + 365 * (b - a) <= days_before_year(b),
    decreases b - a,
{
    if a < b {
        lemma_days_before_next_year(b - 1);
        lemma_days_before_year_grows(a, b - 1);
    }
}

/// A date lies within its year: before the first day of the next year.
pub proof fn lemma_day_number_within_year(year: int, month: int, day: int)
    requires
        is_valid_date(year, month, day),
    ensures
        days_before_year(year) <= day_number(year, month, day) < days_before_year(year + 1),
{
    lemma_days_before_next_year(year);
}

/// Every representable date and time has a Unix timestamp between those of
/// the earliest and the latest representable instants.
pub proof fn lemma_unix_seconds_in_range(dt: UtcDateTime)
    requires
        dt.fields_valid(),
    ensures
        min_unix_seconds() <= dt.unix_seconds() <= max_unix_seconds(),
{
    let y = dt.spec_year() as int;
    lemma_day_number_within_year(y, dt.spec_month() as int, dt.spec_day() as int);
    lemma_days_before_year_grows(-9999, y);
    lemma_days_before_year_grows(y + 1, 10000);
}

/// Within a year, each date has its own day number.
proof fn lemma_day_number_within_year_injective(year: int, m1: int, d1: int, m2: int, d2: int)
    requires
        is_valid_date(year, m1, d1),
        is_valid_date(year, m2, d2),
        day_number(year, m1, d1) == day_number(year, m2, d2),
    ensures
        m1 == m2,
        d1 == d2,
{
    if m1 < m2 {
        assert(days_before_month(year, m1) + days_in_month(year, m1) <= days_before_month(year, m2));
    } else if m2 < m1 {
        assert(days_before_month(year, m2) + days_in_month(year, m2) <= days_before_month(year, m1));
    }
}

/// Each existing date has its own day number.
pub proof fn lemma_day_number_injective(y1: int, m1: int, d1: int, y2: int, m2: int, d2: int)
    requires
        is_valid_date(y1, m1, d1),
        is_valid_date(y2, m2, d2),
        day_number(y1, m1, d1) == day_number(y2, m2, d2),
    ensures
        y1 == y2,
        m1 == m2,
        d1 == d2,
{
    lemma_day_number_within_year(y1, m1, d1);
    lemma_day_number_within_year(y2, m2, d2);
    if y1 < y2 {
        lemma_days_before_year_grows(y1 + 1, y2);
    } else if y2 < y1 {
        lemma_days_before_year_grows(y2 + 1, y1);
    }
    lemma_day_number_within_year_injective(y1, m1, d1, m2, d2);
}

/// Two date-times that name the same instant are the same date and time:
/// a value is determined by its instant.
pub proof fn lemma_instant_identifies(a: UtcDateTime, b: UtcDateTime)
    requires
        a.fields_valid(),
        b.fields_valid(),
        a.instant() == b.instant(),
    ensures
        a.spec_year() == b.spec_year(),
        a.spec_month() == b.spec_month(),
        a.spec_day() == b.spec_day(),
        a.spec_hour() == b.spec_hour(),
        a.spec_minute() == b.spec_minute(),
        a.spec_second() == b.spec_second(),
        a.spec_nanosecond() == b.spec_nanosecond(),
{
    let sa = a.unix_seconds();
    let sb = b.unix_seconds();
    assert(sa == sb) by {
        if sa < sb {
            assert(sa * nanos_per_second() + nanos_per_second() <= sb * nanos_per_second());
        } else if sb < sa {
            assert(sb * nanos_per_second() + nanos_per_second() <= sa * nanos_per_second());
        }
    }
    let da = day_number(a.spec_year() as int, a.spec_month() as int, a.spec_day() as int);
    let db = day_number(b.spec_year() as int, b.spec_month() as int, b.spec_day() as int);
    let ta = a.spec_hour() * 3600 + a.spec_minute() * 60 + a.spec_second();
    let tb = b.spec_hour() * 3600 + b.spec_minute() * 60 + b.spec_second();
    assert(da == db) by {
        if da < db {
            assert((da - 719162) * 86400 + 86400 <= (db - 719162) * 86400);
        } else if db < da {
            assert((db - 719162) * 86400 + 86400 <= (da - 719162) * 86400);
        }
    }
    lemma_day_number_injective(
        a.spec_year() as int,
        a.spec_month() as int,
        a.spec_day() as int,
        b.spec_year() as int,
        b.spec_month() as int,
        b.spec_day() as int,
    );
    assert(ta == tb);
    assert(a.spec_hour() == b.spec_hour()) by {
        if a.spec_hour() < b.spec_hour() {
            assert(a.spec_hour() * 3600 + 3600 <= b.spec_hour() * 3600);
        } else if b.spec_hour() < a.spec_hour() {
            assert(b.spec_hour() * 3600 + 3600 <= a.spec_hour() * 3600);
        }
    }
    assert(a.spec_minute() == b.spec_minute()) by {
        if a.spec_minute() < b.spec_minute() {
            assert(a.spec_minute() * 60 + 60 <= b.spec_minute() * 60);
        } else if b.spec_minute() < a.spec_minute() {
            assert(b.spec_minute() * 60 + 60 <= a.spec_minute() * 60);
        }
    }
}

/// `a` comes before `b` in the order of their calendar parts: year, month,
/// day, hour, minute, second, nanosecond.
pub open spec fn calendar_before(a: UtcDateTime, b: UtcDateTime) -> bool {
    if a.spec_year() != b.spec_year() {
        a.spec_year() < b.spec_year()
    } else if a.spec_month() != b.spec_month() {
        a.spec_month() < b.spec_month()
    } else if a.spec_day() != b.spec_day() {
        a.spec_day() < b.spec_day()
    } else if a.spec_hour() != b.spec_hour() {
        a.spec_hour() < b.spec_hour()
    } else if a.spec_minute() != b.spec_minute() {
        a.spec_minute() < b.spec_minute()
    } else if a.spec_second() != b.spec_second() {
        a.spec_second() < b.spec_second()
    } else {
        a.spec_nanosecond() < b.spec_nanosecond()
    }
}

proof fn lemma_calendar_before_is_earlier(a: UtcDateTime, b: UtcDateTime)
    requires
        a.fields_valid(),
        b.fields_valid(),
        calendar_before(a, b),
    ensures
        a.instant() < b.instant(),
{
    let (ya, ma, da) = (a.spec_year() as int, a.spec_month() as int, a.spec_day() as int);
    let (yb, mb, db) = (b.spec_year() as int, b.spec_month() as int, b.spec_day() as int);
    let na = day_number(ya, ma, da);
    let nb = day_number(yb, mb, db);
    let ta = a.spec_hour() * 3600 + a.spec_minute() * 60 + a.spec_second();
    let tb = b.spec_hour() * 3600 + b.spec_minute() * 60 + b.spec_second();
    lemma_day_number_within_year(ya, ma, da);
    lemma_day_number_within_year(yb, mb, db);
    if ya < yb {
        lemma_days_before_year_grows(ya + 1, yb);
    } else if ya == yb && ma < mb {
        assert(days_before_month(ya, ma) + days_in_month(ya, ma) <= days_before_month(ya, mb));
    }
    if na < nb {
        assert((na - 719162) * 86400 + 86400 <= (nb - 719162) * 86400);
    } else {
        assert(na == nb);
        if a.spec_hour() < b.spec_hour() {
            assert(a.spec_hour() * 3600 + 3600 <= b.spec_hour() * 3600);
        } else if a.spec_hour() == b.spec_hour() && a.spec_minute() < b.spec_minute() {
            assert(a.spec_minute() * 60 + 60 <= b.spec_minute() * 60);
        }
        assert(ta <= tb);
    }
    assert(a.unix_seconds() <= b.unix_seconds());
    if a.unix_seconds() < b.unix_seconds() {
        assert(a.unix_seconds() * nanos_per_second() + nanos_per_second() <= b.unix_seconds()
            * nanos_per_second());
    }
}

/// The order of instants is the order of the calendar parts, as
/// `time::UtcDateTime` orders its values: comparing instants compares the
/// date-times.
pub proof fn lemma_instant_order(a: UtcDateTime, b: UtcDateTime)
    requires
        a.fields_valid(),
        b.fields_valid(),
    ensures
        a.instant() < b.instant() <==> calendar_before(a, b),
{
    if calendar_before(a, b) {
        lemma_calendar_before_is_earlier(a, b);
    } else if calendar_before(b, a) {
        lemma_calendar_before_is_earlier(b, a);
    } else {
        assert(a.instant() == b.instant());
    }
}

/// `a` comes before `b` in the order of their calendar parts to the second:
/// year, month, day, hour, minute, second.
pub open spec fn calendar_before_to_second(a: UtcDateTime, b: UtcDateTime) -> bool {
    if a.spec_year() != b.spec_year() {
        a.spec_year() < b.spec_year()
    } else if a.spec_month() != b.spec_month() {
        a.spec_month() < b.spec_month()
    } else if a.spec_day() != b.spec_day() {
        a.spec_day() < b.spec_day()
    } else if a.spec_hour() != b.spec_hour() {
        a.spec_hour() < b.spec_hour()
    } else if a.spec_minute() != b.spec_minute() {
        a.spec_minute() < b.spec_minute()
    } else {
        a.spec_second() < b.spec_second()
    }
}

proof fn lemma_calendar_before_to_second_is_earlier(a: UtcDateTime, b: UtcDateTime)
    requires
        a.fields_valid(),
        b.fields_valid(),
        calendar_before_to_second(a, b),
    ensures
        a.unix_seconds() < b.unix_seconds(),
{
    let (ya, ma, da) = (a.spec_year() as int, a.spec_month() as int, a.spec_day() as int);
    let (yb, mb, db) = (b.spec_year() as int, b.spec_month() as int, b.spec_day() as int);
    let na = day_number(ya, ma, da);
    let nb = day_number(yb, mb, db);
    lemma_day_number_within_year(ya, ma, da);
    lemma_day_number_within_year(yb, mb, db);
    if ya < yb {
        lemma_days_before_year_grows(ya + 1, yb);
    } else if ya == yb && ma < mb {
        assert(days_before_month(ya, ma) + days_in_month(ya, ma) <= days_before_month(ya, mb));
    }
    if na < nb {
        assert((na - 719162) * 86400 + 86400 <= (nb - 719162) * 86400);
    } else {
        assert(na == nb);
        if a.spec_hour() < b.spec_hour() {
            assert(a.spec_hour() * 3600 + 3600 <= b.spec_hour() * 3600);
        } else if a.spec_hour() == b.spec_hour() && a.spec_minute() < b.spec_minute() {
            assert(a.spec_minute() * 60 + 60 <= b.spec_minute() * 60);
        }
    }
}

/// The order of whole seconds since the epoch is the order of the calendar
/// parts to the second.
pub proof fn lemma_second_order(a: UtcDateTime, b: UtcDateTime)
    requires
        a.fields_valid(),
        b.fields_valid(),
    ensures
        a.unix_seconds() < b.unix_seconds() <==> calendar_before_to_second(a, b),
{
    if calendar_before_to_second(a, b) {
        lemma_calendar_before_to_second_is_earlier(a, b);
    } else if calendar_before_to_second(b, a) {
        lemma_calendar_before_to_second_is_earlier(b, a);
    }
}

} // verus!
