//! Instants with a UTC offset, held as plain components, and their codecs.

use vstd::prelude::*;

verus! {

/// An instant as the `time` crate describes it: a date given by year and day
/// of the year, a clock time, and a UTC offset.
#[derive(Clone, Copy, Debug, PartialEq, Eq, Structural)]
pub struct Timestamp {
    pub year: i32,
    pub ordinal: u16,
    pub hour: u8,
    pub minute: u8,
    pub second: u8,
    pub nanosecond: u32,
    pub offset_hour: i8,
    pub offset_minute: i8,
    pub offset_second: i8,
}

/// Why text or fields do not make an instant.
#[derive(Clone, Copy, Debug, PartialEq, Eq, Structural)]
pub enum TimeError {
    /// The text is not an RFC 3339 date-time.
    BadText,
    /// The structured form is not nine in-range components.
    BadFields,
}

pub open spec fn is_leap_year(y: int) -> bool {
    y % 4 == 0 && (y % 100 != 0 || y % 400 == 0)
}

pub open spec fn days_in_year(y: int) -> int {
    if is_leap_year(y) {
        366
    } else {
        365
    }
}

/// A calendar date that `time::Date::from_ordinal_date` accepts.
pub open spec fn date_valid(year: int, ordinal: int) -> bool {
    -9999 <= year <= 9999 && 1 <= ordinal <= days_in_year(year)
}

/// A clock time that `time::Time::from_hms_nano` accepts.
pub open spec fn clock_valid(hour: int, minute: int, second: int, nanosecond: int) -> bool {
    hour < 24 && minute < 60 && second < 60 && nanosecond < 1_000_000_000
}

/// Offset components within the ranges of `time::UtcOffset::from_hms`.
pub open spec fn offset_in_range(h: int, m: int, s: int) -> bool {
    -25 <= h <= 25 && -59 <= m <= 59 && -59 <= s <= 59
}

/// The three offset components never disagree in sign.
pub open spec fn offset_signs_agree(h: int, m: int, s: int) -> bool {
    &&& (h > 0 ==> m >= 0 && s >= 0)
    &&& (h < 0 ==> m <= 0 && s <= 0)
    &&& (m > 0 ==> s >= 0)
    &&& (m < 0 ==> s <= 0)
}

impl Timestamp {
    /// The components describe an instant.
    pub open spec fn wf(self) -> bool {
        &&& date_valid(self.year as int, self.ordinal as int)
        &&& clock_valid(
            self.hour as int,
            self.minute as int,
            self.second as int,
            self.nanosecond as int,
        )
        &&& offset_in_range(
            self.offset_hour as int,
            self.offset_minute as int,
            self.offset_second as int,
        )
        &&& offset_signs_agree(
            self.offset_hour as int,
            self.offset_minute as int,
            self.offset_second as int,
        )
    }

    /// The instant has an RFC 3339 text form: a four-digit year, and an offset
    /// of whole minutes under a day.
    pub open spec fn has_text_form(self) -> bool {
        &&& 0 <= self.year < 10000
        &&& -23 <= self.offset_hour <= 23
        &&& self.offset_second == 0
    }
}

/// The minute of an offset after its sign is made to follow the hour.
pub open spec fn signed_minute(h: int, m: int) -> int {
    if (h > 0 && m < 0) || (h < 0 && m > 0) {
        -m
    } else {
        m
    }
}

/// The second of an offset after its sign is made to follow the hour and the
/// already signed minute.
pub open spec fn signed_second(h: int, m: int, s: int) -> int {
    if (h > 0 && s < 0) || (h < 0 && s > 0) || (m > 0 && s < 0) || (m < 0 && s > 0) {
        -s
    } else {
        s
    }
}

/// The instant that the structured form `[year, day of year, hour, minute,
/// second, nanosecond, offset hour, offset minute, offset second]` stands for.
pub open spec fn legacy_instant(f: Seq<i64>) -> Option<Timestamp> {
    if f.len() == 9 && date_valid(f[0] as int, f[1] as int) && 0 <= f[2] && 0 <= f[3]
        && 0 <= f[4] && 0 <= f[5] && clock_valid(f[2] as int, f[3] as int, f[4] as int, f[5] as int)
        && offset_in_range(f[6] as int, f[7] as int, f[8] as int) {
        let m = signed_minute(f[6] as int, f[7] as int);
        Some(
            Timestamp {
                year: f[0] as i32,
                ordinal: f[1] as u16,
                hour: f[2] as u8,
                minute: f[3] as u8,
                second: f[4] as u8,
                nanosecond: f[5] as u32,
                offset_hour: f[6] as i8,
                offset_minute: m as i8,
                offset_second: signed_second(f[6] as int, m, f[8] as int) as i8,
            },
        )
    } else {
        None
    }
}

/// What `time::OffsetDateTime::parse` with the RFC 3339 description makes of
/// a text, as components.
pub uninterp spec fn rfc3339_parse(s: Seq<char>) -> Option<Timestamp>;

/// What `time::OffsetDateTime::format` with the RFC 3339 description writes
/// for an instant.
pub uninterp spec fn rfc3339_format(t: Timestamp) -> Seq<char>;

/// Relies on `time::OffsetDateTime::parse(s, &Rfc3339)`: the result depends on
/// the text alone, and the components that an `OffsetDateTime` reports lie in
/// their documented ranges, with offset components of one sign. RFC 3339 text
/// has a four-digit year and an offset of whole minutes under a day.
#[verifier::external_body]
fn parse_rfc3339(s: &str) -> (r: Option<Timestamp>)
    ensures
        r == rfc3339_parse(s@),
        r matches Some(t) ==> t.wf() && t.has_text_form(),
{
    let t = time::OffsetDateTime::parse(s, &time::format_description::well_known::Rfc3339).ok()?;
    let (oh, om, os) = t.offset().as_hms();
    Some(Timestamp { year: t.year(), ordinal: t.ordinal(), hour: t.hour(), minute: t.minute(),
        second: t.second(), nanosecond: t.nanosecond(), offset_hour: oh, offset_minute: om,
        offset_second: os })
}

/// Relies on `time::OffsetDateTime::format(&Rfc3339)`, given an instant built
/// by `Date::from_ordinal_date`, `Time::from_hms_nano` and
/// `UtcOffset::from_hms`, which accept every well-formed instant: formatting
/// fails exactly when the year is outside 0..=9999, the offset hour is over 23
/// in size, or the offset has seconds. The text holds every component, the
/// nanosecond included, so `OffsetDateTime::parse` reads it back as the same
/// instant.
#[verifier::external_body]
fn format_rfc3339(t: Timestamp) -> (r: Option<String>)
    requires
        t.wf(),
    ensures
        r.is_some() == t.has_text_form(),
        r matches Some(s) ==> s@ == rfc3339_format(t) && rfc3339_parse(s@) == Some(t),
{
    let date = time::Date::from_ordinal_date(t.year, t.ordinal).ok()?;
    let clock = time::Time::from_hms_nano(t.hour, t.minute, t.second, t.nanosecond).ok()?;
    let offset = time::UtcOffset::from_hms(t.offset_hour, t.offset_minute, t.offset_second).ok()?;
    let instant = time::PrimitiveDateTime::new(date, clock).assume_offset(offset);
    instant.format(&time::format_description::well_known::Rfc3339).ok()
}

/// Relies on `time::OffsetDateTime::now_utc`: the current instant, in UTC, so
/// with a zero offset. Nothing else is known of it.
#[verifier::external_body]
pub(crate) fn now_utc() -> (r: Timestamp)
    ensures
        r.wf(),
        r.offset_hour == 0 && r.offset_minute == 0 && r.offset_second == 0,
{
    let t = time::OffsetDateTime::now_utc();
    let (oh, om, os) = t.offset().as_hms();
    Timestamp { year: t.year(), ordinal: t.ordinal(), hour: t.hour(), minute: t.minute(),
        second: t.second(), nanosecond: t.nanosecond(), offset_hour: oh, offset_minute: om,
        offset_second: os }
}

/// Reads an instant written in RFC 3339 text.
pub fn parse_time(input: &str) -> (r: Result<Timestamp, TimeError>)
    ensures
        r matches Ok(t) ==> rfc3339_parse(input@) == Some(t) && t.wf() && t.has_text_form(),
        r is Err <==> rfc3339_parse(input@) is None,
        r matches Err(e) ==> e == TimeError::BadText,
{
    match parse_rfc3339(input) {
        Some(t) => Ok(t),
        None => Err(TimeError::BadText),
    }
}

/// Writes an instant in RFC 3339 text; `None` where that form cannot hold it.
pub fn format_time(t: Timestamp) -> (r: Option<String>)
    requires
        t.wf(),
    ensures
        r.is_some() == t.has_text_form(),
        r matches Some(s) ==> s@ == rfc3339_format(t) && rfc3339_parse(s@) == Some(t),
{
    format_rfc3339(t)
}

fn is_leap(year: i32) -> (r: bool)
    requires
        -9999 <= year <= 9999,
    ensures
        r == is_leap_year(year as int),
{
    let y: u32 = (year + 10000) as u32;
    assert(is_leap_year(year as int) == (y % 4 == 0 && (y % 100 != 0 || y % 400 == 0)));
    y % 4 == 0 && (y % 100 != 0 || y % 400 == 0)
}

/// Reads the structured form `[year, day of year, hour, minute, second,
/// nanosecond, offset hour, offset minute, offset second]`, as the `time`
/// constructors for dates, clock times and offsets would accept it.
pub fn timestamp_from_fields(f: &Vec<i64>) -> (r: Result<Timestamp, TimeError>)
    ensures
        r is Ok <==> legacy_instant(f@) is Some,
        r matches Ok(t) ==> legacy_instant(f@) == Some(t) && t.wf(),
        r matches Err(e) ==> e == TimeError::BadFields,
{
    if f.len() != 9 {
        return Err(TimeError::BadFields);
    }
    let year = f[0];
    let ordinal = f[1];
    if year < -9999 || year > 9999 || ordinal < 1 || ordinal > 366 {
        return Err(TimeError::BadFields);
    }
    if ordinal == 366 && !is_leap(year as i32) {
        return Err(TimeError::BadFields);
    }
    let hour = f[2];
    let minute = f[3];
    let second = f[4];
    let nanosecond = f[5];
    if hour < 0 || hour >= 24 || minute < 0 || minute >= 60 || second < 0 || second >= 60
        || nanosecond < 0 || nanosecond >= 1_000_000_000 {
        return Err(TimeError::BadFields);
    }
    let oh = f[6];
    let om = f[7];
    let os = f[8];
    if oh < -25 || oh > 25 || om < -59 || om > 59 || os < -59 || os > 59 {
        return Err(TimeError::BadFields);
    }
    let m: i64 = if (oh > 0 && om < 0) || (oh < 0 && om > 0) {
        -om
    } else {
        om
    };
    let s: i64 = if (oh > 0 && os < 0) || (oh < 0 && os > 0) || (m > 0 && os < 0) || (m < 0 && os > 0) {
        -os
    } else {
        os
    };
    Ok(
        Timestamp {
            year: year as i32,
            ordinal: ordinal as u16,
            hour: hour as u8,
            minute: minute as u8,
            second: second as u8,
            nanosecond: nanosecond as u32,
            offset_hour: oh as i8,
            offset_minute: m as i8,
            offset_second: s as i8,
        },
    )
}

} // verus!
