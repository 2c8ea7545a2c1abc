//! Instants, time zones and dates.

use std::str::FromStr;

use chrono::{Datelike, Offset};
use vstd::prelude::*;
use vstd::utf8::is_ascii_chars;

use crate::text::is_digit;

verus! {

// ── Instants ─────────────────────────────────────────────────────

/// An instant, as seconds since the epoch and nanoseconds on top of them. In a leap second the
/// nanoseconds go on past the whole second.
#[derive(Debug, Clone, Copy, PartialEq, Eq, Structural)]
pub struct Timestamp {
    pub secs: i64,
    pub nanos: u32,
}

/// The first second whose date can be told in every time zone.
pub const FIRST_SECOND: i64 = -8_334_601_142_400;

/// The last second whose date can be told in every time zone.
pub const LAST_SECOND: i64 = 8_210_266_790_399;

impl Timestamp {
    /// The instant has a date in every time zone, and goes past a whole second only at the end of
    /// a minute.
    pub open spec fn valid(self) -> bool {
        &&& FIRST_SECOND <= self.secs <= LAST_SECOND
        &&& self.nanos < 2_000_000_000
        &&& self.nanos >= 1_000_000_000 ==> self.secs % 60 == 59
    }
}

/// How the part of a second is written.
#[derive(Debug, Clone, Copy, PartialEq, Eq, Structural)]
pub enum SecondsFormat {
    /// Not at all.
    Secs,
    /// In milliseconds.
    Millis,
    /// In microseconds.
    Micros,
    /// In nanoseconds.
    Nanos,
    /// In the coarsest of these that loses nothing.
    AutoSi,
}

/// The instant that an RFC 3339 text tells, where the text is one.
pub uninterp spec fn rfc3339_instant(text: Seq<char>) -> Option<Timestamp>;

/// `chrono::DateTime::parse_from_rfc3339`: reads an RFC 3339 text. What comes of it depends on the
/// text alone, and an instant that comes of it is valid. Which texts are RFC 3339, and which
/// instants they tell, is not stated here.
#[verifier::external_body]
pub(crate) fn parse_rfc3339(text: &str) -> (r: Option<Timestamp>)
    ensures
        r == rfc3339_instant(text@),
        r matches Some(t) ==> t.valid(),
{
    match chrono::DateTime::parse_from_rfc3339(text) {
        Ok(t) => Some(Timestamp { secs: t.timestamp(), nanos: t.timestamp_subsec_nanos() }),
        Err(_) => None,
    }
}

// ── Time zones ───────────────────────────────────────────────────

/// Whether the time zone database has a zone of that name.
pub uninterp spec fn zone_exists(name: Seq<char>) -> bool;

/// `chrono_tz::Tz::from_str`: looks a name up among the time zones. Which names there are is not
/// stated here.
#[verifier::external_body]
pub(crate) fn is_zone(name: &str) -> (r: bool)
    ensures
        r == zone_exists(name@),
{
    chrono_tz::Tz::from_str(name).is_ok()
}

/// How far the clocks of a time zone are ahead of UTC at the second `secs`, in seconds.
pub uninterp spec fn zone_offset(secs: i64, zone: Seq<char>) -> int;

/// `chrono_tz::Tz` as a time zone of `chrono`, through `chrono::DateTime::offset`: how far the
/// clocks of a time zone are ahead of UTC at a second. It is less than a day either way, as any
/// `chrono::FixedOffset` is, and depends on the second and the zone alone; how far it is, is not
/// stated here.
#[verifier::external_body]
fn offset_in_zone(secs: i64, zone: &str) -> (r: i32)
    requires
        FIRST_SECOND <= secs <= LAST_SECOND,
        zone_exists(zone@),
    ensures
        r == zone_offset(secs, zone@),
        -86_400 < r < 86_400,
{
    let zone = chrono_tz::Tz::from_str(zone).unwrap();
    let utc = chrono::DateTime::from_timestamp(secs, 0).unwrap();
    utc.with_timezone(&zone).offset().fix().local_minus_utc()
}

/// Whether the local time at which the clocks show `local_secs` seconds since the epoch has a year
/// of four digits.
pub open spec fn has_four_digit_year(local_secs: int) -> bool {
    -62_167_219_200 <= local_secs <= 253_402_300_799
}

/// Whether a text of that precision loses no part of a second.
pub open spec fn is_exact(precision: SecondsFormat) -> bool {
    precision is AutoSi || precision is Nanos
}

/// The second, in 1972, from which on the offset of every time zone is of whole minutes. The last
/// whose offset was not is Africa/Monrovia.
pub const WHOLE_MINUTES_SINCE: i64 = 63_593_070;

/// The last second that has a year of four digits in every time zone.
pub const LAST_FOUR_DIGIT_YEARS: i64 = 253_402_214_400;

/// Whether RFC 3339 can tell an instant in every time zone.
pub open spec fn can_be_told_everywhere(t: Timestamp) -> bool {
    WHOLE_MINUTES_SINCE <= t.secs <= LAST_FOUR_DIGIT_YEARS
}

/// Whether RFC 3339 can tell an instant in a time zone: it has years of four digits and offsets of
/// whole minutes only.
pub open spec fn can_be_told(t: Timestamp, zone: Seq<char>) -> bool {
    ||| can_be_told_everywhere(t)
    ||| has_four_digit_year(t.secs + zone_offset(t.secs, zone)) && zone_offset(t.secs, zone) % 60
        == 0
}

/// Whether there is a time zone of that name and RFC 3339 can tell an instant in it.
pub fn can_tell(t: Timestamp, zone: &str) -> (r: bool)
    requires
        t.valid(),
    ensures
        r == (zone_exists(zone@) && can_be_told(t, zone@)),
{
    if !is_zone(zone) {
        return false;
    }
    if WHOLE_MINUTES_SINCE <= t.secs && t.secs <= LAST_FOUR_DIGIT_YEARS {
        return true;
    }
    let offset = offset_in_zone(t.secs, zone);
    let local: i64 = t.secs + offset as i64;
    -62_167_219_200 <= local && local <= 253_402_300_799 && (offset + 86_400) % 60 == 0
}

/// Whether a text has at least the length of an RFC 3339 text and begins like one.
pub open spec fn begins_like_rfc3339(text: Seq<char>) -> bool {
    is_ascii_chars(text) && text.len() >= 20 && is_digit(text[0])
}

/// The RFC 3339 text of an instant in a time zone, with the offset of the zone at that instant and,
/// where `use_z` says so, `Z` for a zero offset.
pub uninterp spec fn zoned_text(
    t: Timestamp,
    zone: Seq<char>,
    precision: SecondsFormat,
    use_z: bool,
) -> Seq<char>;

/// `chrono::DateTime::to_rfc3339_opts` of an instant in a time zone. The text depends on the
/// instant, the zone, the precision and the use of `Z` alone. Where RFC 3339 can tell the instant
/// and the precision is exact, `chrono::DateTime::parse_from_rfc3339` gives the instant back: the
/// table of `chrono_tz` has offsets of whole minutes only from `WHOLE_MINUTES_SINCE` on. An offset
/// that is not of whole minutes is rounded, and a year that has not four digits gets a sign; what
/// the text then tells is not stated here.
#[verifier::external_body]
pub(crate) fn text_in_zone(
    t: Timestamp,
    zone: &str,
    precision: SecondsFormat,
    use_z: bool,
) -> (r: String)
    requires
        t.valid(),
        zone_exists(zone@),
    ensures
        r@ == zoned_text(t, zone@, precision, use_z),
        can_be_told(t, zone@) ==> begins_like_rfc3339(r@),
        can_be_told(t, zone@) && is_exact(precision) ==> rfc3339_instant(r@) == Some(t),
{
    let format = match precision {
        SecondsFormat::Secs => chrono::SecondsFormat::Secs,
        SecondsFormat::Millis => chrono::SecondsFormat::Millis,
        SecondsFormat::Micros => chrono::SecondsFormat::Micros,
        SecondsFormat::Nanos => chrono::SecondsFormat::Nanos,
        SecondsFormat::AutoSi => chrono::SecondsFormat::AutoSi,
    };
    let zone = chrono_tz::Tz::from_str(zone).unwrap();
    let utc = chrono::DateTime::from_timestamp(t.secs, t.nanos).unwrap();
    utc.with_timezone(&zone).to_rfc3339_opts(format, use_z)
}

/// The RFC 3339 text of an instant in UTC, with `Z` for the offset where `use_z` says so.
pub uninterp spec fn utc_text(t: Timestamp, precision: SecondsFormat, use_z: bool) -> Seq<char>;

/// `chrono::DateTime::to_rfc3339_opts` of an instant in UTC. The text depends on the instant, the
/// precision and the use of `Z` alone. Where the year has four digits and the precision is exact,
/// `chrono::DateTime::parse_from_rfc3339` gives the instant back.
#[verifier::external_body]
pub(crate) fn text_in_utc(t: Timestamp, precision: SecondsFormat, use_z: bool) -> (r: String)
    requires
        t.valid(),
    ensures
        r@ == utc_text(t, precision, use_z),
        has_four_digit_year(t.secs as int) && is_exact(precision) ==> rfc3339_instant(r@) == Some(
            t,
        ),
{
    let format = match precision {
        SecondsFormat::Secs => chrono::SecondsFormat::Secs,
        SecondsFormat::Millis => chrono::SecondsFormat::Millis,
        SecondsFormat::Micros => chrono::SecondsFormat::Micros,
        SecondsFormat::Nanos => chrono::SecondsFormat::Nanos,
        SecondsFormat::AutoSi => chrono::SecondsFormat::AutoSi,
    };
    chrono::DateTime::from_timestamp(t.secs, t.nanos).unwrap().to_rfc3339_opts(format, use_z)
}

// ── Dates ────────────────────────────────────────────────────────

/// A date of the Gregorian calendar.
#[derive(Debug, Clone, Copy, PartialEq, Eq, Structural)]
pub struct CivilDate {
    pub year: i32,
    /// The month, from 1 on.
    pub month: u32,
    /// The day of the month, from 1 on.
    pub day: u32,
    /// The day of the year, from 1 on.
    pub ordinal: u32,
}

/// The first year of the calendar.
pub const FIRST_YEAR: i32 = -262_143;

/// The last year of the calendar.
pub const LAST_YEAR: i32 = 262_142;

/// Whether a year has a 29th of February.
pub open spec fn is_leap_year(year: int) -> bool {
    year % 4 == 0 && (year % 100 != 0 || year % 400 == 0)
}

/// How many days of a year pass before a month begins.
pub open spec fn days_before_month(year: int, month: int) -> int {
    let common: int = if month <= 1 {
        0
    } else if month == 2 {
        31
    } else if month == 3 {
        59
    } else if month == 4 {
        90
    } else if month == 5 {
        120
    } else if month == 6 {
        151
    } else if month == 7 {
        181
    } else if month == 8 {
        212
    } else if month == 9 {
        243
    } else if month == 10 {
        273
    } else if month == 11 {
        304
    } else if month == 12 {
        334
    } else {
        365
    };
    if is_leap_year(year) && month > 2 {
        common + 1
    } else {
        common
    }
}

/// How many days of the calendar pass before a year begins, counted from the epoch.
pub open spec fn days_before_year(year: int) -> int {
    365 * (year - 1) + (year - 1) / 4 - (year - 1) / 100 + (year - 1) / 400 - 719_162
}

impl CivilDate {
    /// The date is one of the calendar.
    pub open spec fn valid(self) -> bool {
        &&& FIRST_YEAR <= self.year <= LAST_YEAR
        &&& 1 <= self.month <= 12
        &&& 1 <= self.day
        &&& days_before_month(self.year as int, self.month as int) + self.day <= days_before_month(
            self.year as int,
            self.month + 1,
        )
        &&& self.ordinal == days_before_month(self.year as int, self.month as int) + self.day
    }

    /// The number of the day, counted from the epoch.
    pub open spec fn day_number(self) -> int {
        days_before_year(self.year as int) + self.ordinal - 1
    }
}

proof fn lemma_years_grow(a: int, b: int)
    requires
        a < b,
    ensures
        days_before_year(a) + (if is_leap_year(a) {
            366int
        } else {
            365
        }) <= days_before_year(b),
    decreases b - a,
{
    if a + 1 < b {
        lemma_years_grow(a, b - 1);
    }
}

/// No two dates of the calendar have the same number.
pub proof fn day_number_tells_the_date(a: CivilDate, b: CivilDate)
    requires
        a.valid(),
        b.valid(),
        a.day_number() == b.day_number(),
    ensures
        a == b,
{
    if a.year < b.year {
        lemma_years_grow(a.year as int, b.year as int);
    }
    if b.year < a.year {
        lemma_years_grow(b.year as int, a.year as int);
    }
}

/// The date of the calendar that has the number `n`.
pub open spec fn date_of_day(n: int) -> CivilDate {
    choose|d: CivilDate| d.valid() && #[trigger] d.day_number() == n
}

/// The date that a text tells in a format, where it has that format.
pub uninterp spec fn date_told(text: Seq<char>, format: Seq<char>) -> Option<CivilDate>;

/// `chrono::NaiveDate::parse_from_str`: reads a date in a format. What comes of it depends on the
/// text and the format alone, and a date that comes of it is one of the calendar. Which texts have
/// a format, and which dates they tell, is not stated here.
#[verifier::external_body]
pub(crate) fn parse_date(text: &str, format: &str) -> (r: Option<CivilDate>)
    ensures
        r == date_told(text@, format@),
        r matches Some(d) ==> d.valid(),
{
    match chrono::NaiveDate::parse_from_str(text, format) {
        Ok(d) => Some(
            CivilDate { year: d.year(), month: d.month(), day: d.day(), ordinal: d.ordinal() },
        ),
        Err(_) => None,
    }
}

/// `chrono::DateTime::date_naive` of an instant in a time zone: the date there. It is the one of
/// the calendar whose day, counted from the epoch, has begun by the clocks of the zone.
#[verifier::external_body]
pub(crate) fn date_in_zone(t: Timestamp, zone: &str) -> (r: CivilDate)
    requires
        t.valid(),
        zone_exists(zone@),
    ensures
        r.valid(),
        r.day_number() == (t.secs + zone_offset(t.secs, zone@)) / 86_400,
{
    let zone = chrono_tz::Tz::from_str(zone).unwrap();
    let utc = chrono::DateTime::from_timestamp(t.secs, t.nanos).unwrap();
    let d = utc.with_timezone(&zone).date_naive();
    CivilDate { year: d.year(), month: d.month(), day: d.day(), ordinal: d.ordinal() }
}

/// `chrono::DateTime::date_naive` of an instant in UTC: the date there. It is the one of the
/// calendar whose day, counted from the epoch, has begun by the seconds of the instant.
#[verifier::external_body]
pub(crate) fn date_in_utc(t: Timestamp) -> (r: CivilDate)
    requires
        t.valid(),
    ensures
        r.valid(),
        r.day_number() == t.secs as int / 86_400,
{
    let d = chrono::DateTime::from_timestamp(t.secs, t.nanos).unwrap().date_naive();
    CivilDate { year: d.year(), month: d.month(), day: d.day(), ordinal: d.ordinal() }
}

// ── Laws ─────────────────────────────────────────────────────────

/// RFC 3339 can tell an instant in every time zone from the 7th of January 1972 until a day before
/// the year 9999 ends, and otherwise in a zone where the local year has four digits and the offset
/// is of whole minutes.
pub proof fn four_digits_and_whole_minutes_can_be_told(t: Timestamp, zone: Seq<char>)
    ensures
        63_593_070 <= t.secs <= 253_402_214_400 ==> can_be_told_everywhere(t) && can_be_told(
            t,
            zone,
        ),
        t.secs < 63_593_070 || 253_402_214_400 < t.secs ==> !can_be_told_everywhere(t) && (
        can_be_told(t, zone) <==> -62_167_219_200 <= t.secs + zone_offset(t.secs, zone)
            <= 253_402_300_799 && zone_offset(t.secs, zone) % 60 == 0),
{
}

/// A text loses no part of a second where it is written in nanoseconds, or as coarsely as it can
/// be without a loss; in whole seconds, milliseconds or microseconds it may.
pub proof fn nanoseconds_are_exact(precision: SecondsFormat)
    ensures
        is_exact(precision) <==> precision == SecondsFormat::Nanos || precision
            == SecondsFormat::AutoSi,
{
}

/// The epoch begins the year 1970, and a year has 365 days, or 366 where four divides it, unless a
/// hundred does and four hundred does not.
pub proof fn years_have_their_days(year: int)
    ensures
        days_before_year(1970) == 0,
        days_before_year(year + 1) - days_before_year(year) == (if year % 400 == 0 || (year % 4 == 0
            && year % 100 != 0) {
            366int
        } else {
            365int
        }),
{
}

/// A month has thirty days in April, June, September and November, twenty-eight or in a leap year
/// twenty-nine in February, and thirty-one otherwise.
pub proof fn months_have_their_days(year: int, month: int)
    requires
        1 <= month <= 12,
    ensures
        days_before_month(year, 1) == 0,
        days_before_month(year, month + 1) - days_before_month(year, month) == (if month == 2 {
            if year % 400 == 0 || (year % 4 == 0 && year % 100 != 0) {
                29int
            } else {
                28int
            }
        } else if month == 4 || month == 6 || month == 9 || month == 11 {
            30int
        } else {
            31int
        }),
{
}

/// The number of a day tells its date.
pub proof fn date_of_a_day_has_its_number(d: CivilDate)
    requires
        d.valid(),
    ensures
        date_of_day(d.day_number()) == d,
{
    let found = date_of_day(d.day_number());
    assert(found.valid() && found.day_number() == d.day_number());
    day_number_tells_the_date(found, d);
}

/// Days are counted from the epoch on: through the years, the months and the days of the month.
pub proof fn days_are_counted_from_the_epoch(d: CivilDate)
    requires
        d.valid(),
    ensures
        d.day_number() == days_before_year(d.year as int) + days_before_month(
            d.year as int,
            d.month as int,
        ) + d.day - 1,
{
}

} // verus!
