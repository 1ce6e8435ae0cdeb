//! Dates and times: what the chrono crate reads out of a text, and what the library makes of it.
use chrono::{DateTime, Datelike, FixedOffset, Local, NaiveDate, SecondsFormat, Utc};
use vstd::prelude::*;
use vstd::string::*;
use crate::path;
use crate::text;
use crate::text::{concat2, concat3, first_chars, front_bytes, is_blank, number, owned, signed_number,
    trim};

verus! {

/// The year and the month (January is zero) of an RFC 3339 time; none where the text is not one.
pub uninterp spec fn rfc3339_month(s: Seq<char>) -> Option<(int, int)>;

/// `DateTime::parse_from_rfc3339` of the chrono crate, of which `year` and `month0` are kept:
/// both depend on the text alone, and the month is one of twelve. The error is dropped.
#[verifier::external_body]
fn parse_rfc3339(s: &str) -> (r: Option<(i32, u32)>)
    ensures
        r is Some <==> rfc3339_month(s@) is Some,
        r matches Some(m) ==> rfc3339_month(s@) == Some((m.0 as int, m.1 as int)) && m.1 < 12,
{
    DateTime::parse_from_rfc3339(s).ok().map(|t| (t.year(), t.month0()))
}

/// A calendar date.
#[derive(Clone, Copy, Debug, PartialEq, Eq, Structural)]
pub struct CalendarDate {
    pub year: i32,
    /// From one to twelve.
    pub month: u32,
    /// From one to thirty-one.
    pub day: u32,
    /// Days since Monday.
    pub weekday: u32,
}

/// The date that a text of the form YYYY-MM-DD stands for; none where it is not one.
pub uninterp spec fn iso_date(s: Seq<char>) -> Option<CalendarDate>;

/// `NaiveDate::parse_from_str` of the chrono crate with the format "%Y-%m-%d", of which year,
/// month, day and weekday are kept: they depend on the text alone and are in their usual ranges.
/// The error is dropped.
#[verifier::external_body]
fn parse_iso_date(s: &str) -> (r: Option<CalendarDate>)
    ensures
        r == iso_date(s@),
        r matches Some(d) ==> 1 <= d.month <= 12 && 1 <= d.day <= 31 && d.weekday < 7,
{
    NaiveDate::parse_from_str(s, "%Y-%m-%d").ok().map(|d| CalendarDate {
        year: d.year(),
        month: d.month(),
        day: d.day(),
        weekday: d.weekday().num_days_from_monday(),
    })
}

/// The text of a point in time, in UTC with milliseconds; none where the point cannot be told.
pub uninterp spec fn utc_millis_text(secs: i64, nanos: u32) -> Option<Seq<char>>;

/// `DateTime::from_timestamp` of the chrono crate, then `to_rfc3339_opts` with milliseconds and
/// "Z": the text depends on the two numbers alone, and there is none for a time out of range.
#[verifier::external_body]
fn format_utc_millis(secs: i64, nanos: u32) -> (r: Option<String>)
    ensures
        path::opt_view(r) == utc_millis_text(secs, nanos),
{
    let time = DateTime::<Utc>::from_timestamp(secs, nanos);
    time.map(|t| t.to_rfc3339_opts(SecondsFormat::Millis, true))
}

/// The text is a time in the relaxed form of RFC 3339.
pub uninterp spec fn is_relaxed_time(s: Seq<char>) -> bool;

/// The formats in which the viewer writes a local time.
#[derive(Clone, Copy, Debug, PartialEq, Eq, Structural)]
pub enum TimeStyle {
    /// 2026-07-19 15:42:00 UTC+02:00
    Compact,
    /// Sunday, July 19, 2026 · 3:42 PM
    Full,
    /// Jul 19, 2026, 3:42 PM
    Short,
}

/// The pattern of a style, in the notation of strftime.
pub open spec fn pattern_of(style: TimeStyle) -> Seq<char> {
    match style {
        TimeStyle::Compact => "%Y-%m-%d %H:%M:%S UTC%:z"@,
        TimeStyle::Full => "%A, %B %-d, %Y · %-I:%M %p"@,
        TimeStyle::Short => "%b %-d, %Y, %-I:%M %p"@,
    }
}

fn style_pattern(style: TimeStyle) -> (r: &'static str)
    ensures
        r@ == pattern_of(style),
{
    match style {
        TimeStyle::Compact => "%Y-%m-%d %H:%M:%S UTC%:z",
        TimeStyle::Full => "%A, %B %-d, %Y · %-I:%M %p",
        TimeStyle::Short => "%b %-d, %Y, %-I:%M %p",
    }
}

/// The pattern is one the viewer formats times with.
pub open spec fn is_style_pattern(pattern: Seq<char>) -> bool {
    exists|style: TimeStyle| pattern == #[trigger] pattern_of(style)
}

/// What a pattern of the viewer copies into every text as it stands.
pub open spec fn fixed_part(pattern: Seq<char>) -> Seq<char> {
    if pattern == pattern_of(TimeStyle::Compact) {
        " UTC"@
    } else if pattern == pattern_of(TimeStyle::Full) {
        " · "@
    } else {
        ", "@
    }
}

/// The number is an offset from UTC in seconds: less than a day either way.
pub open spec fn is_zone_offset(offset: i32) -> bool {
    -86400 < offset < 86400
}

/// The text of an RFC 3339 time at an offset from UTC, in a pattern; none where the text is not
/// such a time or the number no offset.
pub uninterp spec fn rfc3339_text(s: Seq<char>, offset: i32, pattern: Seq<char>) -> Option<Seq<char>>;

/// `DateTime::parse_from_rfc3339` of the chrono crate, then `with_timezone` to the zone of
/// `FixedOffset::east_opt` and `format`. The text depends on the three arguments alone, holds what
/// the pattern copies, and comes exactly where the time could be read and the offset is less than a
/// day.
#[verifier::external_body]
fn format_rfc3339_at(s: &str, offset: i32, pattern: &str) -> (r: Option<String>)
    requires
        is_style_pattern(pattern@),
    ensures
        path::opt_view(r) == rfc3339_text(s@, offset, pattern@),
        r is Some <==> (rfc3339_month(s@) is Some && is_zone_offset(offset)),
        r matches Some(t) ==> text::occurs_in(t@, fixed_part(pattern@)),
{
    let time = DateTime::parse_from_rfc3339(s).ok()?;
    let zone = FixedOffset::east_opt(offset)?;
    Some(time.with_timezone(&zone).format(pattern).to_string())
}

/// The text of a time in the relaxed form of RFC 3339 at an offset from UTC, in a pattern; none
/// where the text is not such a time or the number no offset.
pub uninterp spec fn relaxed_text(s: Seq<char>, offset: i32, pattern: Seq<char>) -> Option<Seq<char>>;

/// `str::parse` to the chrono crate's `DateTime<Utc>`, then `with_timezone` to the zone of
/// `FixedOffset::east_opt` and `format`. The text depends on the three arguments alone, holds what
/// the pattern copies, and comes exactly where the time could be read and the offset is less than a
/// day.
#[verifier::external_body]
fn format_relaxed_at(s: &str, offset: i32, pattern: &str) -> (r: Option<String>)
    requires
        is_style_pattern(pattern@),
    ensures
        path::opt_view(r) == relaxed_text(s@, offset, pattern@),
        r is Some <==> (is_relaxed_time(s@) && is_zone_offset(offset)),
        r matches Some(t) ==> text::occurs_in(t@, fixed_part(pattern@)),
{
    let time = s.parse::<DateTime<Utc>>().ok()?;
    let zone = FixedOffset::east_opt(offset)?;
    Some(time.with_timezone(&zone).format(pattern).to_string())
}

/// `DateTime::parse_from_rfc3339` of the chrono crate, then `with_timezone` to the machine's time
/// zone, of which the offset in seconds is kept. There is one exactly where the time could be read,
/// and it is less than a day; which one it is depends on the machine's time zone, and is left open.
#[verifier::external_body]
fn local_offset_of_rfc3339(s: &str) -> (r: Option<i32>)
    ensures
        r is Some <==> rfc3339_month(s@) is Some,
        r matches Some(offset) ==> is_zone_offset(offset),
{
    let time = DateTime::parse_from_rfc3339(s).ok()?;
    Some(time.with_timezone(&Local).offset().local_minus_utc())
}

/// `str::parse` to the chrono crate's `DateTime<Utc>`, then `with_timezone` to the machine's time
/// zone, of which the offset in seconds is kept. There is one exactly where the time could be read,
/// and it is less than a day; which one it is depends on the machine's time zone, and is left open.
#[verifier::external_body]
fn local_offset_of_relaxed(s: &str) -> (r: Option<i32>)
    ensures
        r is Some <==> is_relaxed_time(s@),
        r matches Some(offset) ==> is_zone_offset(offset),
{
    let time = s.parse::<DateTime<Utc>>().ok()?;
    Some(time.with_timezone(&Local).offset().local_minus_utc())
}

/// The text can be read as a time.
pub open spec fn is_time(s: Seq<char>) -> bool {
    rfc3339_month(s) is Some || is_relaxed_time(s)
}

/// A time at an offset from UTC, in a style of the viewer: read as RFC 3339 where it can be, else in
/// the relaxed form.
pub open spec fn time_text(iso: Seq<char>, offset: i32, style: TimeStyle) -> Option<Seq<char>> {
    if rfc3339_month(iso) is Some {
        rfc3339_text(iso, offset, pattern_of(style))
    } else {
        relaxed_text(iso, offset, pattern_of(style))
    }
}

/// The text shows a time at some offset from UTC, in a style of the viewer.
pub open spec fn shows_local_time(shown: Seq<char>, iso: Seq<char>, style: TimeStyle) -> bool {
    &&& exists|offset: i32|
        is_zone_offset(offset) && #[trigger] time_text(iso, offset, style) == Some(shown)
    &&& text::occurs_in(shown, fixed_part(pattern_of(style)))
}

/// A time at an offset from UTC in seconds, in a style of the viewer; none where the text is no time
/// or the offset is a day or more.
pub fn time_at_offset(iso: &str, offset: i32, style: TimeStyle) -> (r: Option<String>)
    ensures
        path::opt_view(r) == time_text(iso@, offset, style),
        r is Some <==> is_time(iso@) && is_zone_offset(offset),
        r matches Some(t) ==> shows_local_time(t@, iso@, style),
{
    let pattern: &'static str = style_pattern(style);
    match format_rfc3339_at(iso, offset, pattern) {
        Some(t) => Some(t),
        None => format_relaxed_at(iso, offset, pattern),
    }
}

/// The machine's offset from UTC at a time; none where the text is no time.
fn local_offset(iso: &str) -> (r: Option<i32>)
    ensures
        r is Some <==> is_time(iso@),
        r matches Some(offset) ==> is_zone_offset(offset),
{
    match local_offset_of_rfc3339(iso) {
        Some(offset) => Some(offset),
        None => local_offset_of_relaxed(iso),
    }
}

/// A time in the machine's time zone, in a style of the viewer; none where the text is no time.
pub fn local_time_text(iso: &str, style: TimeStyle) -> (r: Option<String>)
    ensures
        r is Some <==> is_time(iso@),
        r matches Some(t) ==> shows_local_time(t@, iso@, style),
{
    match local_offset(iso) {
        Some(offset) => time_at_offset(iso, offset, style),
        None => None,
    }
}

/// The compact form of a time: the local time where the text was read as one, else the text
/// itself.
pub fn compact_time(iso: &str, local: Option<String>) -> (r: String)
    ensures
        r@ == match local {
            Some(t) => t@,
            None => iso@,
        },
{
    match local {
        Some(t) => t,
        None => owned(iso),
    }
}

/// A time as the details list shows it, in the machine's time zone; a text that is no time as it
/// stands.
pub fn format_datetime_display(iso: &str) -> (r: String)
    ensures
        is_time(iso@) ==> shows_local_time(r@, iso@, TimeStyle::Compact),
        !is_time(iso@) ==> r@ == iso@,
{
    let local: Option<String> = local_time_text(iso, TimeStyle::Compact);
    compact_time(iso, local)
}

/// The long form of a time: the local time where the text was read as one, else the compact form,
/// else, where that is blank, the text itself.
pub fn full_time(iso: &str, local: Option<String>, compact: String) -> (r: String)
    ensures
        r@ == match local {
            Some(t) => t@,
            None => if text::trimmed(compact@).len() == 0 {
                iso@
            } else {
                compact@
            },
        },
{
    match local {
        Some(t) => t,
        None => {
            if is_blank(compact.as_str()) {
                owned(iso)
            } else {
                compact
            }
        },
    }
}

/// A time as the details sheet shows it, in the machine's time zone; a text that is no time as it
/// stands.
pub fn format_full_timestamp(iso: &str) -> (r: String)
    ensures
        is_time(iso@) ==> shows_local_time(r@, iso@, TimeStyle::Full),
        !is_time(iso@) ==> r@ == iso@,
{
    let local: Option<String> = local_time_text(iso, TimeStyle::Full);
    let compact: String = format_datetime_display(iso);
    full_time(iso, local, compact)
}

/// The short form of a time: the local time, nothing where the text was not read as one.
pub fn topbar_time(local: Option<String>) -> (r: String)
    ensures
        r@ == match local {
            Some(t) => t@,
            None => Seq::empty(),
        },
{
    match local {
        Some(t) => t,
        None => String::new(),
    }
}

/// A time as the top bar shows it, in the machine's time zone; empty where the text is no time.
pub fn format_topbar_datetime(iso: &str) -> (r: String)
    ensures
        is_time(iso@) ==> shows_local_time(r@, iso@, TimeStyle::Short),
        r@.len() == 0 <==> !is_time(iso@),
{
    proof {
        reveal_strlit(" UTC");
        reveal_strlit(" · ");
        reveal_strlit(", ");
    }
    topbar_time(local_time_text(iso, TimeStyle::Short))
}

/// The modification time of a file in UTC with milliseconds: seconds and nanoseconds since the
/// start of 1970. None where the time is out of range.
pub fn format_modified(secs: i64, nanos: u32) -> (r: Option<String>)
    ensures
        path::opt_view(r) == utc_millis_text(secs, nanos),
{
    format_utc_millis(secs, nanos)
}

/// The English name of a month, January being one.
pub open spec fn month_name(month: int) -> Seq<char> {
    if month == 1 {
        "January"@
    } else if month == 2 {
        "February"@
    } else if month == 3 {
        "March"@
    } else if month == 4 {
        "April"@
    } else if month == 5 {
        "May"@
    } else if month == 6 {
        "June"@
    } else if month == 7 {
        "July"@
    } else if month == 8 {
        "August"@
    } else if month == 9 {
        "September"@
    } else if month == 10 {
        "October"@
    } else if month == 11 {
        "November"@
    } else {
        "December"@
    }
}

fn month_text(month: u32) -> (r: &'static str)
    requires
        1 <= month <= 12,
    ensures
        r@ == month_name(month as int),
{
    match month {
        1 => "January",
        2 => "February",
        3 => "March",
        4 => "April",
        5 => "May",
        6 => "June",
        7 => "July",
        8 => "August",
        9 => "September",
        10 => "October",
        11 => "November",
        _ => "December",
    }
}

/// The English name of a weekday, Monday being zero.
pub open spec fn weekday_name(weekday: int) -> Seq<char> {
    if weekday == 0 {
        "Monday"@
    } else if weekday == 1 {
        "Tuesday"@
    } else if weekday == 2 {
        "Wednesday"@
    } else if weekday == 3 {
        "Thursday"@
    } else if weekday == 4 {
        "Friday"@
    } else if weekday == 5 {
        "Saturday"@
    } else {
        "Sunday"@
    }
}

fn weekday_text(weekday: u32) -> (r: &'static str)
    requires
        weekday < 7,
    ensures
        r@ == weekday_name(weekday as int),
{
    match weekday {
        0 => "Monday",
        1 => "Tuesday",
        2 => "Wednesday",
        3 => "Thursday",
        4 => "Friday",
        5 => "Saturday",
        _ => "Sunday",
    }
}

/// The ordinal suffix of a day of the month: "st", "nd", "rd" or "th".
pub open spec fn suffix_of(day: int) -> Seq<char> {
    if 11 <= day % 100 <= 13 {
        "th"@
    } else if day % 10 == 1 {
        "st"@
    } else if day % 10 == 2 {
        "nd"@
    } else if day % 10 == 3 {
        "rd"@
    } else {
        "th"@
    }
}

/// The ordinal suffix of a day of the month.
pub fn ordinal_suffix(day: u32) -> (r: &'static str)
    ensures
        r@ == suffix_of(day as int),
{
    let hundreds: u32 = day % 100;
    let ones: u32 = day % 10;
    if 11 <= hundreds && hundreds <= 13 {
        "th"
    } else if ones == 1 {
        "st"
    } else if ones == 2 {
        "nd"
    } else if ones == 3 {
        "rd"
    } else {
        "th"
    }
}

/// "Sunday, July 19th 2026".
pub open spec fn day_text(date: CalendarDate) -> Seq<char> {
    weekday_name(date.weekday as int) + ", "@ + month_name(date.month as int) + " "@
        + text::decimal(date.day as nat) + suffix_of(date.day as int) + " "@ + text::signed_decimal(
        date.year as int,
    )
}

/// The date part of a time: its first ten bytes, or all of it where they are no whole characters.
pub open spec fn date_part(created_at: Seq<char>) -> Seq<char> {
    match text::byte_front(created_at, 10) {
        Some(front) => front,
        None => created_at,
    }
}

/// The header of a day, given what its date part stands for.
pub open spec fn day_header(created_at: Seq<char>, date: Option<CalendarDate>) -> Seq<char> {
    match date {
        Some(d) => day_text(d),
        None => if text::trimmed(created_at).len() == 0 {
            "Unknown"@
        } else {
            created_at
        },
    }
}

/// The header of a day: the date where there is one, else the raw text, "Unknown" for a blank one.
pub fn day_header_for(created_at: &str, date: Option<CalendarDate>) -> (r: String)
    requires
        date matches Some(d) ==> 1 <= d.month <= 12 && d.weekday < 7,
    ensures
        r@ == day_header(created_at@, date),
{
    match date {
        Some(d) => {
            let mut out: String = concat3(weekday_text(d.weekday), ", ", month_text(d.month));
            out.append(" ");
            out.append(number(d.day as u64).as_str());
            out.append(ordinal_suffix(d.day));
            out.append(" ");
            out.append(signed_number(d.year).as_str());
            out
        },
        None => {
            if is_blank(created_at) {
                owned("Unknown")
            } else {
                owned(created_at)
            }
        },
    }
}

/// The header of the day a time falls on, without regard to time zones.
pub fn format_day_header(created_at: &str) -> (r: String)
    ensures
        r@ == day_header(created_at@, iso_date(date_part(created_at@))),
{
    let part: String = match front_bytes(created_at, 10) {
        Some(front) => front,
        None => owned(created_at),
    };
    let date: Option<CalendarDate> = parse_iso_date(part.as_str());
    day_header_for(created_at, date)
}

/// The label of a month, given the month a time falls in: "July 2026", else the first seven
/// characters of the text.
pub open spec fn month_label(iso: Seq<char>, month: Option<(int, int)>) -> Seq<char> {
    match month {
        Some(m) => if 0 <= m.1 < 12 {
            month_name(m.1 + 1) + " "@ + text::signed_decimal(m.0)
        } else {
            crate::seqs::first_n(iso, 7)
        },
        None => crate::seqs::first_n(iso, 7),
    }
}

/// The label of a month, given the year and the month (January is zero) of a time.
pub fn month_label_for(iso: &str, month: Option<(i32, u32)>) -> (r: String)
    ensures
        r@ == month_label(
            iso@,
            match month {
                Some(m) => Some((m.0 as int, m.1 as int)),
                None => None,
            },
        ),
{
    match month {
        Some(m) => {
            if m.1 < 12 {
                concat3(month_text(m.1 + 1), " ", signed_number(m.0).as_str())
            } else {
                first_chars(iso, 7)
            }
        },
        None => first_chars(iso, 7),
    }
}

/// "July 2026" for a time in that month; the first seven characters of a text that is no time.
pub fn month_year_label(iso: &str) -> (r: String)
    ensures
        r@ == month_label(iso@, rfc3339_month(iso@)),
{
    month_label_for(iso, parse_rfc3339(iso))
}

/// A date typed into a filter, given whether it is a full time or a bare date: a time as typed, a
/// date as its first moment in UTC, nothing else.
pub open spec fn filter_date(typed: Seq<char>, is_full: bool, is_bare: bool) -> Option<Seq<char>> {
    let t = text::trimmed(typed);
    if t.len() == 0 {
        None
    } else if is_full {
        Some(t)
    } else if is_bare {
        Some(t + "T00:00:00.000Z"@)
    } else {
        None
    }
}

/// A date typed into a filter, trimmed, given whether it is a full time or a bare date.
pub fn filter_date_for(trimmed_text: String, is_full: bool, is_bare: bool) -> (r: Option<String>)
    requires
        text::trimmed(trimmed_text@) == trimmed_text@,
    ensures
        path::opt_view(r) == filter_date(trimmed_text@, is_full, is_bare),
{
    if trimmed_text.as_str().is_empty() {
        None
    } else if is_full {
        Some(trimmed_text)
    } else if is_bare {
        Some(concat2(trimmed_text.as_str(), "T00:00:00.000Z"))
    } else {
        None
    }
}

/// A date typed into a filter: an RFC 3339 time as it is, a bare date as its first moment in UTC,
/// nothing for anything else.
pub fn normalise_iso_date(typed: &str) -> (r: Option<String>)
    ensures
        path::opt_view(r) == filter_date(
            typed@,
            rfc3339_month(text::trimmed(typed@)) is Some,
            iso_date(text::trimmed(typed@)) is Some,
        ),
{
    let t: String = trim(typed);
    proof {
        text::trimming_twice(typed@);
    }
    let is_full: bool = parse_rfc3339(t.as_str()).is_some();
    let is_bare: bool = parse_iso_date(t.as_str()).is_some();
    filter_date_for(t, is_full, is_bare)
}

} // verus!
