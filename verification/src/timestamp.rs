//! A point in time together with the UTC offset it is shown in.

use vstd::prelude::*;

verus! {

/// The year, in the calendar of the given offset, of the instant that lies
/// `unix_nanos` nanoseconds after the Unix epoch; `None` outside the range
/// of years and offsets that can be represented.
pub uninterp spec fn spec_local_year(unix_nanos: i128, offset_seconds: i32) -> Option<i32>;

/// The RFC 3339 text of the instant in the given offset; `None` where the
/// instant or the offset cannot be represented or written in that format.
pub uninterp spec fn spec_rfc3339(unix_nanos: i128, offset_seconds: i32) -> Option<Seq<char>>;

/// The instant, in nanoseconds after the Unix epoch, of a calendar date and
/// a time of day in a given offset; `None` where they do not exist.
pub uninterp spec fn spec_civil_instant(
    year: i32,
    month: u8,
    day: u8,
    hour: u8,
    minute: u8,
    second: u8,
    nanosecond: u32,
    offset_seconds: i32,
) -> Option<i128>;

/// The year of an instant in an offset.
///
/// Trusted: builds the date-time with
/// `time::OffsetDateTime::from_unix_timestamp_nanos`, moves it to the offset
/// made by `time::UtcOffset::from_whole_seconds` with `checked_to_offset`
/// and reads `year`. Each of the three gives up outside its range. The year
/// is a function of the two numbers alone and is named.
#[verifier::external_body]
fn local_year(unix_nanos: i128, offset_seconds: i32) -> (year: Option<i32>)
    ensures
        year == spec_local_year(unix_nanos, offset_seconds),
{
    let offset = time::UtcOffset::from_whole_seconds(offset_seconds).ok()?;
    let utc = time::OffsetDateTime::from_unix_timestamp_nanos(unix_nanos).ok()?;
    utc.checked_to_offset(offset).map(|local| local.year())
}

/// The RFC 3339 text of an instant in an offset.
///
/// Trusted: builds the date-time as for the year and formats it with
/// `time::OffsetDateTime::format` and the well-known `Rfc3339` description.
/// The text is a function of the two numbers alone and is named.
#[verifier::external_body]
fn rfc3339_text(unix_nanos: i128, offset_seconds: i32) -> (text: Option<String>)
    ensures
        text is Some <==> spec_rfc3339(unix_nanos, offset_seconds) is Some,
        text matches Some(s) ==> spec_rfc3339(unix_nanos, offset_seconds) == Some(s@),
{
    let offset = time::UtcOffset::from_whole_seconds(offset_seconds).ok()?;
    let utc = time::OffsetDateTime::from_unix_timestamp_nanos(unix_nanos).ok()?;
    let local = utc.checked_to_offset(offset)?;
    local.format(&time::format_description::well_known::Rfc3339).ok()
}

/// The instant of a calendar date and time of day in an offset.
///
/// Trusted: checks the parts with `time::Month::try_from`,
/// `time::Date::from_calendar_date`, `time::Time::from_hms_nano` and
/// `time::UtcOffset::from_whole_seconds`, joins them with
/// `time::OffsetDateTime::new_in_offset` and reads `unix_timestamp_nanos`.
/// The instant is a function of the parts alone and is named.
#[verifier::external_body]
fn civil_instant(
    year: i32,
    month: u8,
    day: u8,
    hour: u8,
    minute: u8,
    second: u8,
    nanosecond: u32,
    offset_seconds: i32,
) -> (unix_nanos: Option<i128>)
    ensures
        unix_nanos == spec_civil_instant(
            year,
            month,
            day,
            hour,
            minute,
            second,
            nanosecond,
            offset_seconds,
        ),
{
    let month = time::Month::try_from(month).ok()?;
    let date = time::Date::from_calendar_date(year, month, day).ok()?;
    let time = time::Time::from_hms_nano(hour, minute, second, nanosecond).ok()?;
    let offset = time::UtcOffset::from_whole_seconds(offset_seconds).ok()?;
    Some(time::OffsetDateTime::new_in_offset(date, time, offset).unix_timestamp_nanos())
}

/// The offset of the local time zone from UTC at this moment, in seconds.
///
/// Trusted: calls `time::UtcOffset::current_local_offset`, whose answer
/// depends on the machine and the moment; nothing is claimed of it.
#[verifier::external_body]
pub(crate) fn current_local_offset() -> Option<i32> {
    time::UtcOffset::current_local_offset().ok().map(|offset| offset.whole_seconds())
}

/// An instant and the offset it is shown in.
///
/// `year` is the calendar year of the instant in that offset; it is kept
/// beside the instant because only the calendar can tell it.
#[derive(Debug, Clone, Copy, PartialEq, Eq, Structural)]
pub struct Timestamp {
    pub unix_nanos: i128,
    pub offset_seconds: i32,
    pub year: i32,
}

impl Timestamp {
    /// The year agrees with the instant and the offset.
    pub open spec fn wf(self) -> bool {
        spec_local_year(self.unix_nanos, self.offset_seconds) == Some(self.year)
    }

    /// The timestamp of an instant in an offset, where the calendar can
    /// represent it.
    pub fn from_unix_nanos(unix_nanos: i128, offset_seconds: i32) -> (stamp: Option<Timestamp>)
        ensures
            stamp is Some <==> spec_local_year(unix_nanos, offset_seconds) is Some,
            stamp matches Some(t) ==> t.wf() && t.unix_nanos == unix_nanos && t.offset_seconds
                == offset_seconds,
    {
        match local_year(unix_nanos, offset_seconds) {
            Some(year) => Some(Timestamp { unix_nanos, offset_seconds, year }),
            None => None,
        }
    }

    /// The timestamp of a calendar date and a time of day in an offset,
    /// where they exist.
    pub fn from_civil(
        year: i32,
        month: u8,
        day: u8,
        hour: u8,
        minute: u8,
        second: u8,
        nanosecond: u32,
        offset_seconds: i32,
    ) -> (stamp: Option<Timestamp>)
        ensures
            stamp == spec_from_civil(
                year,
                month,
                day,
                hour,
                minute,
                second,
                nanosecond,
                offset_seconds,
            ),
            stamp matches Some(t) ==> t.wf(),
    {
        match civil_instant(year, month, day, hour, minute, second, nanosecond, offset_seconds) {
            Some(unix_nanos) => Self::from_unix_nanos(unix_nanos, offset_seconds),
            None => None,
        }
    }

    /// Whether this instant is the other one or comes before it. The offsets
    /// play no part.
    pub fn not_after(&self, other: &Timestamp) -> (earlier: bool)
        ensures
            earlier == (self.unix_nanos <= other.unix_nanos),
    {
        self.unix_nanos <= other.unix_nanos
    }

    /// The RFC 3339 text of the timestamp, where it has one.
    pub fn rfc3339(&self) -> (text: Option<String>)
        ensures
            text is Some <==> spec_rfc3339(self.unix_nanos, self.offset_seconds) is Some,
            text matches Some(s) ==> spec_rfc3339(self.unix_nanos, self.offset_seconds) == Some(
                s@,
            ),
    {
        rfc3339_text(self.unix_nanos, self.offset_seconds)
    }
}

/// The timestamp of a calendar date and a time of day in an offset: the
/// instant they denote, with the year that instant has in the offset.
pub open spec fn spec_from_civil(
    year: i32,
    month: u8,
    day: u8,
    hour: u8,
    minute: u8,
    second: u8,
    nanosecond: u32,
    offset_seconds: i32,
) -> Option<Timestamp> {
    match spec_civil_instant(year, month, day, hour, minute, second, nanosecond, offset_seconds) {
        Some(unix_nanos) => match spec_local_year(unix_nanos, offset_seconds) {
            Some(local) => Some(Timestamp { unix_nanos, offset_seconds, year: local }),
            None => None,
        },
        None => None,
    }
}

} // verus!
