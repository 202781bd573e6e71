//! Dates of the Gregorian calendar: from a count of seconds to a date that a
//! file list shows, and from the clock to the name of a log.

use vstd::prelude::*;
use vstd::string::*;

use crate::text::{
    blank, chars_of, decimal, digits_value, first_index_of, first_of, is_blank, is_digit,
    last_index_of, last_of, law_replacing_goes_from_left_to_right,
    law_replacing_what_is_not_there_changes_nothing, lemma_decimal_reads_back, lemma_first_of,
    lemma_last_of, owned, padded_decimal_of, replace, replaced, stands_at, string_between, trim,
    trimmed, zero_padded,
};

verus! {

/// Whether a year has a leap day.
pub open spec fn leap(year: int) -> bool {
    year % 4 == 0 && (year % 100 != 0 || year % 400 == 0)
}

/// How many days a month has.
pub open spec fn days_in_month(year: int, month: int) -> int {
    if month == 2 {
        if leap(year) {
            29
        } else {
            28
        }
    } else if month == 4 || month == 6 || month == 9 || month == 11 {
        30
    } else {
        31
    }
}

/// Whether this is a day of the calendar.
pub open spec fn valid_date(year: int, month: int, day: int) -> bool {
    1 <= month <= 12 && 1 <= day <= days_in_month(year, month)
}

/// How many days the months of a year before this one have.
pub open spec fn days_before_month(year: int, month: int) -> int
    decreases month,
{
    if month <= 1 {
        0
    } else {
        days_before_month(year, month - 1) + days_in_month(year, month - 1)
    }
}

/// How many days the years from the first up to this many have.
pub open spec fn days_of_years(years: int) -> int {
    365 * years + years / 4 - years / 100 + years / 400
}

/// The number of a day, counted from the first of January 1970.
pub open spec fn day_number(year: int, month: int, day: int) -> int {
    days_of_years(year - 1) + days_before_month(year, month) + day - 1 - 719162
}

proof fn lemma_year_step(year: int)
    requires
        year >= 1,
    ensures
        days_of_years(year) == days_of_years(year - 1) + if leap(year) {
            366int
        } else {
            365
        },
{
}

proof fn lemma_months(year: int)
    ensures
        days_before_month(year, 1) == 0,
        days_before_month(year, 2) == 31,
        days_before_month(year, 3) == 59 + leap_day(year),
        days_before_month(year, 4) == 90 + leap_day(year),
        days_before_month(year, 5) == 120 + leap_day(year),
        days_before_month(year, 6) == 151 + leap_day(year),
        days_before_month(year, 7) == 181 + leap_day(year),
        days_before_month(year, 8) == 212 + leap_day(year),
        days_before_month(year, 9) == 243 + leap_day(year),
        days_before_month(year, 10) == 273 + leap_day(year),
        days_before_month(year, 11) == 304 + leap_day(year),
        days_before_month(year, 12) == 334 + leap_day(year),
        days_before_month(year, 13) == 365 + leap_day(year),
{
    reveal_with_fuel(days_before_month, 14);
}

spec fn leap_day(year: int) -> int {
    if leap(year) {
        1
    } else {
        0
    }
}

/// A date.
#[derive(Debug, Clone, Copy, PartialEq, Eq, Structural)]
pub struct Date {
    pub year: u64,
    pub month: u64,
    pub day: u64,
}

proof fn lemma_year_digits(e: int, c: int, q: int, r: int)
    requires
        0 <= e,
        0 <= c <= 3,
        0 <= q <= 24,
        0 <= r <= 3,
    ensures
        days_of_years(400 * e + 100 * c + 4 * q + r) == 146097 * e + 36524 * c + 1461 * q + 365 * r,
        r == 3 && (q < 24 || c == 3) ==> leap(400 * e + 100 * c + 4 * q + r + 1),
{
    let y = 400 * e + 100 * c + 4 * q + r;
    assert(y / 4 == 100 * e + 25 * c + q);
    assert(y / 100 == 4 * e + c);
    assert(y / 400 == e);
}

/// How many days the months from March on have before the `i`th of them.
spec fn march_before(i: int) -> int {
    if i == 0 {
        0
    } else if i == 1 {
        31
    } else if i == 2 {
        61
    } else if i == 3 {
        92
    } else if i == 4 {
        122
    } else if i == 5 {
        153
    } else if i == 6 {
        184
    } else if i == 7 {
        214
    } else if i == 8 {
        245
    } else if i == 9 {
        275
    } else if i == 10 {
        306
    } else {
        337
    }
}

/// How many days the `i`th month from March on has at most.
spec fn march_len(i: int) -> int {
    if i == 0 {
        31
    } else if i == 1 {
        30
    } else if i == 2 {
        31
    } else if i == 3 {
        30
    } else if i == 4 {
        31
    } else if i == 5 {
        31
    } else if i == 6 {
        30
    } else if i == 7 {
        31
    } else if i == 8 {
        30
    } else if i == 9 {
        31
    } else if i == 10 {
        31
    } else {
        29
    }
}

/// A day of the years that begin in March: how many whole ones are before it, and how
/// many days of its own.
struct MarchDay {
    era: u64,
    century: u64,
    group: u64,
    rest: u64,
    of_year: u64,
}

impl MarchDay {
    spec fn years(&self) -> int {
        400 * self.era + 100 * self.century + 4 * self.group + self.rest
    }

    spec fn wf(&self) -> bool {
        &&& self.century <= 3
        &&& self.group <= 24
        &&& self.rest <= 3
        &&& self.of_year <= 365
        &&& self.of_year == 365 ==> self.rest == 3 && (self.group < 24 || self.century == 3)
    }
}

// Years are taken to begin in March, so that the leap day ends one. Four hundred of
// them repeat; then come centuries, of which the fourth is a day longer, and groups of
// four years, of which the last year is.
fn march_day(z: u64) -> (r: MarchDay)
    ensures
        r.wf(),
        z == 146_097 * r.era + 36_524 * r.century + 1_461 * r.group + 365 * r.rest + r.of_year,
        r.era <= z / 146_097,
{
    let era: u64 = z / 146_097;
    let of_era: u64 = z % 146_097;
    let century: u64 = if of_era / 36_524 < 3 {
        of_era / 36_524
    } else {
        3
    };
    let of_century: u64 = of_era - century * 36_524;
    assert(of_century <= 36_524);
    assert(century < 3 ==> of_century <= 36_523);
    let group: u64 = of_century / 1_461;
    let of_group: u64 = of_century % 1_461;
    assert(group <= 24);
    assert(group == 24 && century < 3 ==> of_group <= 1_459);
    let rest: u64 = if of_group / 365 < 3 {
        of_group / 365
    } else {
        3
    };
    let of_year: u64 = of_group - rest * 365;
    assert(of_year <= 365);
    MarchDay { era, century, group, rest, of_year }
}

fn march_month(of_year: u64) -> (r: (u64, u64))
    requires
        of_year <= 365,
    ensures
        r.0 <= 11,
        of_year == march_before(r.0 as int) + r.1 - 1,
        1 <= r.1 <= march_len(r.0 as int),
        r.0 == 11 && r.1 == 29 ==> of_year == 365,
{
    let index: u64 = (5 * of_year + 2) / 153;
    let first: u64 = (153 * index + 2) / 5;
    assert(index <= 11);
    assert(first == march_before(index as int));
    (index, of_year - first + 1)
}

proof fn lemma_march_date(day: MarchDay, index: int, of_month: int)
    requires
        day.wf(),
        0 <= index <= 11,
        day.of_year == march_before(index) + of_month - 1,
        1 <= of_month <= march_len(index),
        day.years() >= 1,
    ensures
        ({
            let month = if index < 10 {
                index + 3
            } else {
                index - 9
            };
            let year = if index < 10 {
                day.years()
            } else {
                day.years() + 1
            };
            &&& valid_date(year, month, of_month)
            &&& day_number(year, month, of_month) == 146_097 * day.era + 36_524 * day.century + 1_461
                * day.group + 365 * day.rest + day.of_year - 719_468
        }),
{
    lemma_year_digits(day.era as int, day.century as int, day.group as int, day.rest as int);
    let year = if index < 10 {
        day.years()
    } else {
        day.years() + 1
    };
    lemma_months(year);
    if index < 10 {
        lemma_year_step(year);
    }
}

/// The date of a day, counted from the first of January 1970.
pub fn date_of_day(days: u64) -> (r: Date)
    requires
        days <= u64::MAX / 86_400,
    ensures
        valid_date(r.year as int, r.month as int, r.day as int),
        day_number(r.year as int, r.month as int, r.day as int) == days,
{
    let part: MarchDay = march_day(days + 719_468);
    let (index, day): (u64, u64) = march_month(part.of_year);
    assert(part.years() >= 1) by {
        if part.era == 0 {
            assert(36_524 * part.century + 1_461 * part.group + 365 * part.rest >= 719_468 - 365);
        }
    }
    let years: u64 = 400 * part.era + 100 * part.century + 4 * part.group + part.rest;
    proof {
        lemma_march_date(part, index as int, day as int);
    }
    if index < 10 {
        Date { year: years, month: index + 3, day }
    } else {
        Date { year: years + 1, month: index - 9, day }
    }
}

/// What a moment of a day is written as.
pub open spec fn stamp(year: int, month: int, day: int, hour: int, minute: int) -> Seq<char> {
    zero_padded(decimal(year as nat), 4) + "-"@ + zero_padded(decimal(month as nat), 2) + "-"@
        + zero_padded(decimal(day as nat), 2) + " "@ + zero_padded(decimal(hour as nat), 2) + ":"@
        + zero_padded(decimal(minute as nat), 2)
}

/// Whether this is how a count of seconds since the start of 1970 is written:
/// the date of its day, and the hour and the minute.
pub open spec fn is_stamp_of(text: Seq<char>, secs: int) -> bool {
    exists|year: int, month: int, day: int|
        valid_date(year, month, day) && #[trigger] day_number(year, month, day) == secs / 86400
            && text == stamp(year, month, day, secs % 86400 / 3600, secs % 86400 % 3600 / 60)
}

fn write_stamp(date: Date, hour: u64, minute: u64) -> (r: String)
    ensures
        r@ == stamp(
            date.year as int,
            date.month as int,
            date.day as int,
            hour as int,
            minute as int,
        ),
{
    let mut out: String = padded_decimal_of(date.year, 4);
    out.append("-");
    out.append(padded_decimal_of(date.month, 2).as_str());
    out.append("-");
    out.append(padded_decimal_of(date.day, 2).as_str());
    out.append(" ");
    out.append(padded_decimal_of(hour, 2).as_str());
    out.append(":");
    out.append(padded_decimal_of(minute, 2).as_str());
    out
}

/// A count of seconds since the start of 1970 as a date and a time of day.
pub fn format_epoch_utc(secs: u64) -> (r: String)
    ensures
        is_stamp_of(r@, secs as int),
{
    let date: Date = date_of_day(secs / 86_400);
    let of_day: u64 = secs % 86_400;
    let out: String = write_stamp(date, of_day / 3600, of_day % 3600 / 60);
    assert(day_number(date.year as int, date.month as int, date.day as int) == secs as int / 86400);
    out
}

proof fn lemma_years_grow(a: int, b: int)
    requires
        0 <= a < b,
    ensures
        days_of_years(a) + 365 <= days_of_years(b),
        leap(a + 1) ==> days_of_years(a) + 366 <= days_of_years(b),
    decreases b - a,
{
    lemma_year_step(b);
    if a + 1 < b {
        lemma_years_grow(a, b - 1);
    }
}

/// A day has one date: two different dates are different days, and the later
/// date is the later day.
pub proof fn law_a_day_has_one_date(y1: int, m1: int, d1: int, y2: int, m2: int, d2: int)
    requires
        1 <= y1,
        1 <= y2,
        valid_date(y1, m1, d1),
        valid_date(y2, m2, d2),
    ensures
        day_number(y1, m1, d1) == day_number(y2, m2, d2) <==> (y1, m1, d1) == (y2, m2, d2),
        day_number(y1, m1, d1) < day_number(y2, m2, d2) <==> (y1 < y2 || (y1 == y2 && (m1 < m2 || (
        m1 == m2 && d1 < d2)))),
{
    lemma_months(y1);
    lemma_months(y2);
    if y1 < y2 {
        lemma_years_grow(y1 - 1, y2 - 1);
    }
    if y2 < y1 {
        lemma_years_grow(y2 - 1, y1 - 1);
    }
}

/// How a count of seconds that was read as a signed one looks.
pub open spec fn as_signed(secs: u64) -> int {
    if secs <= i64::MAX {
        secs as int
    } else {
        secs - 0x1_0000_0000_0000_0000
    }
}

/// A count of seconds moved to a time zone: never before the start of 1970, and
/// never past the last second that a signed count holds.
pub open spec fn local_secs(secs: u64, offset: int) -> int {
    let moved = as_signed(secs) + offset;
    if moved < 0 {
        0
    } else if moved > i64::MAX {
        i64::MAX as int
    } else {
        moved
    }
}

/// The largest offset from UTC that a time zone may have.
pub const MAX_OFFSET: i32 = 93_599;

/// A count of seconds as a date and a time of day, at an offset from UTC.
pub fn format_mtime_at(secs: u64, offset: i32) -> (r: String)
    ensures
        is_stamp_of(r@, local_secs(secs, offset as int)),
{
    let moved: i128 = if secs <= i64::MAX as u64 {
        secs as i128 + offset as i128
    } else {
        secs as i128 - 0x1_0000_0000_0000_0000i128 + offset as i128
    };
    let local: u64 = if moved < 0 {
        0
    } else if moved > i64::MAX as i128 {
        i64::MAX as u64
    } else {
        moved as u64
    };
    format_epoch_utc(local)
}

/// Calls `time::UtcOffset::current_local_offset` and then `whole_seconds`: how
/// far this machine's clock is ahead of UTC, in seconds, or nothing where that
/// cannot be determined. An offset is less than twenty-six hours either way.
/// Nothing else is claimed: the offset is this machine's own.
#[verifier::external_body]
fn current_local_offset() -> (r: Option<i32>)
    ensures
        r matches Some(secs) ==> -MAX_OFFSET <= secs <= MAX_OFFSET,
{
    time::UtcOffset::current_local_offset().ok().map(|offset| offset.whole_seconds())
}

/// The offset from UTC that an answer of the system stands for: where it has none,
/// local time is taken for UTC.
pub fn offset_or_utc(answer: Option<i32>) -> (r: i32)
    ensures
        r == match answer {
            Some(secs) => secs,
            None => 0,
        },
{
    match answer {
        Some(secs) => secs,
        None => 0,
    }
}

/// The time zone of this machine, asked for at its first use and kept from then on: what
/// is shown does not shift while the window is open.
#[derive(Debug, Clone, Copy, PartialEq, Eq, Structural)]
pub struct LocalZone {
    offset: Option<i32>,
}

impl LocalZone {
    /// How far local time is ahead of UTC, in seconds, once that was asked for.
    pub closed spec fn kept(&self) -> Option<int> {
        match self.offset {
            Some(secs) => Some(secs as int),
            None => None,
        }
    }

    /// Whether the offset is one that a time zone may have.
    pub open spec fn wf(&self) -> bool {
        self.kept() matches Some(secs) ==> -MAX_OFFSET <= secs <= MAX_OFFSET
    }

    /// Whether `self` is what a use of the offset leaves of `before`: an offset that was
    /// kept stays, and where none was there is one now.
    pub open spec fn used_from(&self, before: &LocalZone) -> bool {
        &&& self.wf()
        &&& self.kept() is Some
        &&& before.kept() is Some ==> *self == *before
    }

    /// A zone that nobody has asked for yet.
    pub fn new() -> (r: LocalZone)
        ensures
            r.kept() is None,
            r.wf(),
    {
        LocalZone { offset: None }
    }
}

/// The offset is asked for once: whatever is shown after the first use goes by the offset
/// of the first use.
pub proof fn law_the_offset_is_asked_once(unused: LocalZone, first: LocalZone, later: LocalZone)
    requires
        first.used_from(&unused),
        later.used_from(&first),
    ensures
        later == first,
        later.kept() == first.kept(),
{
}

/// How far local time is ahead of UTC, in seconds: what was kept, or else what this
/// machine says now, which is kept. Where that cannot be determined it is nothing.
pub fn local_offset_secs(zone: &mut LocalZone) -> (r: i32)
    requires
        old(zone).wf(),
    ensures
        final(zone).used_from(old(zone)),
        final(zone).kept() == Some(r as int),
{
    match zone.offset {
        Some(secs) => secs,
        None => {
            let secs: i32 = offset_or_utc(current_local_offset());
            zone.offset = Some(secs);
            secs
        },
    }
}

/// A count of seconds as a date and a time of day, in a time zone.
pub fn format_mtime(zone: &mut LocalZone, secs: u64) -> (r: String)
    requires
        old(zone).wf(),
    ensures
        final(zone).used_from(old(zone)),
        is_stamp_of(r@, local_secs(secs, final(zone).kept()->0)),
{
    format_mtime_at(secs, local_offset_secs(zone))
}

/// What a file list shows as the time of an entry, at an offset from UTC.
pub fn sftp_date_at(mtime: Option<u64>, offset: i32) -> (r: String)
    ensures
        match mtime {
            Some(secs) => is_stamp_of(r@, local_secs(secs, offset as int)),
            None => r@ == "—"@,
        },
{
    match mtime {
        Some(secs) => format_mtime_at(secs, offset),
        None => owned("—"),
    }
}

/// What a file list shows as the time of an entry: a dash where it has none.
pub fn sftp_date(zone: &mut LocalZone, mtime: Option<u64>) -> (r: String)
    requires
        old(zone).wf(),
    ensures
        match mtime {
            Some(secs) => final(zone).used_from(old(zone)) && is_stamp_of(
                r@,
                local_secs(secs, final(zone).kept()->0),
            ),
            None => r@ == "—"@ && *final(zone) == *old(zone),
        },
{
    match mtime {
        Some(secs) => format_mtime(zone, secs),
        None => owned("—"),
    }
}

// The name of a log.

/// A moment: year, month, day, hour, minute, second.
#[derive(Debug, Clone, Copy, PartialEq, Eq, Structural)]
pub struct Moment {
    pub year: i32,
    pub month: u8,
    pub day: u8,
    pub hour: u8,
    pub minute: u8,
    pub second: u8,
}

impl Moment {
    /// Whether this is a moment of the calendar, in a year of four digits.
    pub open spec fn wf(&self) -> bool {
        &&& -9999 <= self.year <= 9999
        &&& valid_date(self.year as int, self.month as int, self.day as int)
        &&& self.hour <= 23
        &&& self.minute <= 59
        &&& self.second <= 59
    }
}

/// Calls `time::OffsetDateTime::now_utc` and `to_offset`, with the offset made by
/// `time::UtcOffset::from_whole_seconds`: what the clock shows now at that
/// offset. It is a date of the calendar, in a year of four digits, and a time of
/// day with no leap second. Which moment it is depends on the clock, so nothing
/// more is claimed; of a clock that stands at the very edge of year 9999 nothing
/// is claimed at all.
#[verifier::external_body]
fn moment_at(offset: i32) -> (r: Moment)
    requires
        -MAX_OFFSET <= offset <= MAX_OFFSET,
    ensures
        r.wf(),
{
    let offset = time::UtcOffset::from_whole_seconds(offset).unwrap_or(time::UtcOffset::UTC);
    let now = time::OffsetDateTime::now_utc().to_offset(offset);
    Moment {
        year: now.year(),
        month: u8::from(now.month()),
        day: now.day(),
        hour: now.hour(),
        minute: now.minute(),
        second: now.second(),
    }
}

/// The local time, now.
pub fn now_local_parts(zone: &mut LocalZone) -> (r: Moment)
    requires
        old(zone).wf(),
    ensures
        r.wf(),
        final(zone).used_from(old(zone)),
{
    moment_at(local_offset_secs(zone))
}

/// The host of an endpoint: what stands after its last `@`, up to the first `:`.
pub open spec fn endpoint_host(endpoint: Seq<char>) -> Seq<char> {
    let rest = match last_of(endpoint, '@') {
        Some(at) => endpoint.skip(at + 1),
        None => endpoint,
    };
    match first_of(rest, ':') {
        Some(at) => rest.take(at),
        None => rest,
    }
}

/// A year as at least four characters, of which a sign is one.
pub open spec fn year_text(year: int) -> Seq<char> {
    if year < 0 {
        "-"@ + zero_padded(decimal((-year) as nat), 3)
    } else {
        zero_padded(decimal(year as nat), 4)
    }
}

/// A number below a hundred as two digits.
pub open spec fn two_digits(n: int) -> Seq<char> {
    zero_padded(decimal(n as nat), 2)
}

/// A pattern with its marks replaced, one after the other: `%N` by the session's
/// name, `%H` by its host, `%Y`, `%M` and `%D` by the date, `%h`, `%m` and `%s` by
/// the time.
pub open spec fn log_name(
    pattern: Seq<char>,
    name: Seq<char>,
    endpoint: Seq<char>,
    at: Moment,
) -> Seq<char> {
    let s = replaced(pattern, "%N"@, name);
    let s = replaced(s, "%H"@, endpoint_host(endpoint));
    let s = replaced(s, "%Y"@, year_text(at.year as int));
    let s = replaced(s, "%M"@, two_digits(at.month as int));
    let s = replaced(s, "%D"@, two_digits(at.day as int));
    let s = replaced(s, "%h"@, two_digits(at.hour as int));
    let s = replaced(s, "%m"@, two_digits(at.minute as int));
    replaced(s, "%s"@, two_digits(at.second as int))
}

/// The host of an endpoint.
pub fn host_of_endpoint(endpoint: &str) -> (r: String)
    ensures
        r@ == endpoint_host(endpoint@),
{
    let chars: Vec<char> = chars_of(endpoint);
    let count: usize = chars.len();
    let from: usize = match last_index_of(chars.as_slice(), '@') {
        Some(at) => at + 1,
        None => 0,
    };
    let rest: String = string_between(chars.as_slice(), from, count);
    assert(endpoint@.subrange(0, endpoint@.len() as int) =~= endpoint@);
    assert(rest@ =~= endpoint@.skip(from as int));
    let host: Vec<char> = chars_of(rest.as_str());
    match first_index_of(host.as_slice(), ':') {
        Some(at) => string_between(host.as_slice(), 0, at),
        None => rest,
    }
}

/// The name of a log, at a moment.
pub fn render_log_name_at(pattern: &str, session_name: &str, endpoint: &str, at: Moment) -> (r:
    String)
    requires
        at.year > i32::MIN,
    ensures
        r@ == log_name(pattern@, session_name@, endpoint@, at),
{
    proof {
        reveal_strlit("%N");
        reveal_strlit("%H");
        reveal_strlit("%Y");
        reveal_strlit("%M");
        reveal_strlit("%D");
        reveal_strlit("%h");
        reveal_strlit("%m");
        reveal_strlit("%s");
    }
    let year: String = if at.year < 0 {
        let mut text: String = owned("-");
        text.append(padded_decimal_of((-at.year) as u64, 3).as_str());
        text
    } else {
        padded_decimal_of(at.year as u64, 4)
    };
    let host: String = host_of_endpoint(endpoint);
    let s: String = replace(pattern, "%N", session_name);
    let s: String = replace(s.as_str(), "%H", host.as_str());
    let s: String = replace(s.as_str(), "%Y", year.as_str());
    let s: String = replace(s.as_str(), "%M", padded_decimal_of(at.month as u64, 2).as_str());
    let s: String = replace(s.as_str(), "%D", padded_decimal_of(at.day as u64, 2).as_str());
    let s: String = replace(s.as_str(), "%h", padded_decimal_of(at.hour as u64, 2).as_str());
    let s: String = replace(s.as_str(), "%m", padded_decimal_of(at.minute as u64, 2).as_str());
    replace(s.as_str(), "%s", padded_decimal_of(at.second as u64, 2).as_str())
}

/// The name of a log that begins now.
pub fn render_log_name(
    zone: &mut LocalZone,
    pattern: &str,
    session_name: &str,
    endpoint: &str,
) -> (r: String)
    requires
        old(zone).wf(),
    ensures
        exists|at: Moment|
            at.wf() && r@ == #[trigger] log_name(pattern@, session_name@, endpoint@, at),
        final(zone).used_from(old(zone)),
{
    let at: Moment = now_local_parts(zone);
    let out: String = render_log_name_at(pattern, session_name, endpoint, at);
    assert(out@ == log_name(pattern@, session_name@, endpoint@, at));
    out
}

/// The pattern of a log's name where none was chosen.
pub fn default_log_pattern() -> (r: &'static str)
    ensures
        r@ == "%N_%Y-%M-%D_%h-%m-%s.log"@,
{
    "%N_%Y-%M-%D_%h-%m-%s.log"
}

/// The pattern that is on: the chosen one, or the default where that is blank.
pub fn effective_log_pattern(chosen: &str) -> (r: String)
    ensures
        r@ == if blank(chosen@) {
            "%N_%Y-%M-%D_%h-%m-%s.log"@
        } else {
            chosen@
        },
{
    if is_blank(chosen) {
        owned(default_log_pattern())
    } else {
        owned(chosen)
    }
}

/// Where logs go.
#[derive(Debug, Clone)]
pub enum LogDir {
    /// To `logs` under the folder of the settings that are in use.
    UnderConfig,
    /// To a folder that was chosen.
    Chosen(String),
}

/// Where logs go: to the chosen folder, or under the settings where that is blank.
pub fn effective_log_dir(chosen: &str) -> (r: LogDir)
    ensures
        match r {
            LogDir::UnderConfig => blank(chosen@),
            LogDir::Chosen(path) => !blank(chosen@) && path@ == trimmed(chosen@),
        },
{
    if is_blank(chosen) {
        LogDir::UnderConfig
    } else {
        LogDir::Chosen(trim(chosen))
    }
}

// What a calendar is.

/// The months have these many days, and a year has a leap day where it can be divided by
/// four, but of the centuries only those that can be divided by four hundred.
pub proof fn law_months_have_these_lengths(year: int)
    ensures
        days_in_month(year, 1) == 31,
        days_in_month(year, 2) == if leap(year) {
            29
        } else {
            28int
        },
        days_in_month(year, 3) == 31,
        days_in_month(year, 4) == 30,
        days_in_month(year, 5) == 31,
        days_in_month(year, 6) == 30,
        days_in_month(year, 7) == 31,
        days_in_month(year, 8) == 31,
        days_in_month(year, 9) == 30,
        days_in_month(year, 10) == 31,
        days_in_month(year, 11) == 30,
        days_in_month(year, 12) == 31,
        year % 400 == 0 ==> leap(year),
        year % 100 == 0 && year % 400 != 0 ==> !leap(year),
        year % 4 == 0 && year % 100 != 0 ==> leap(year),
        year % 4 != 0 ==> !leap(year),
{
}

/// The first of January 1970 is day 0, and each day has the number after that of the day
/// before it, over the end of a month and of a year.
pub proof fn law_days_follow_each_other(year: int, month: int, day: int)
    requires
        year >= 1,
        valid_date(year, month, day),
    ensures
        day_number(1970, 1, 1) == 0,
        day < days_in_month(year, month) ==> day_number(year, month, day + 1) == day_number(
            year,
            month,
            day,
        ) + 1,
        day == days_in_month(year, month) && month < 12 ==> day_number(year, month + 1, 1)
            == day_number(year, month, day) + 1,
        day == days_in_month(year, month) && month == 12 ==> day_number(year + 1, 1, 1)
            == day_number(year, month, day) + 1,
{
    reveal_with_fuel(days_before_month, 2);
    lemma_months(year);
    lemma_year_step(year);
}

/// A stamp is sixteen characters or more: the year, a dash, the month, a dash, the day, a
/// space, the hour, a colon and the minute, each with as many digits as it takes and zeroes
/// before them. Its numbers read back.
pub proof fn law_a_stamp_reads_back(year: nat, month: nat, day: nat, hour: nat, minute: nat)
    requires
        1000 <= year <= 9999,
        month < 100,
        day < 100,
        hour < 100,
        minute < 100,
    ensures
        ({
            let s = stamp(year as int, month as int, day as int, hour as int, minute as int);
            &&& s.len() == 16
            &&& s[4] == '-' && s[7] == '-' && s[10] == ' ' && s[13] == ':'
            &&& digits_value(s.subrange(0, 4)) == year
            &&& digits_value(s.subrange(5, 7)) == month
            &&& digits_value(s.subrange(8, 10)) == day
            &&& digits_value(s.subrange(11, 13)) == hour
            &&& digits_value(s.subrange(14, 16)) == minute
        }),
{
    reveal_strlit("-");
    reveal_strlit(" ");
    reveal_strlit(":");
    let s = stamp(year as int, month as int, day as int, hour as int, minute as int);
    lemma_four_digits(year);
    lemma_padded_pair(month);
    lemma_padded_pair(day);
    lemma_padded_pair(hour);
    lemma_padded_pair(minute);
    assert(s.subrange(0, 4) =~= zero_padded(decimal(year), 4));
    assert(s.subrange(5, 7) =~= zero_padded(decimal(month), 2));
    assert(s.subrange(8, 10) =~= zero_padded(decimal(day), 2));
    assert(s.subrange(11, 13) =~= zero_padded(decimal(hour), 2));
    assert(s.subrange(14, 16) =~= zero_padded(decimal(minute), 2));
}

proof fn lemma_four_digits(n: nat)
    requires
        1000 <= n <= 9999,
    ensures
        zero_padded(decimal(n), 4).len() == 4,
        digits_value(zero_padded(decimal(n), 4)) == n,
{
    lemma_decimal_reads_back(n);
    reveal_with_fuel(decimal, 4);
}

proof fn lemma_padded_pair(n: nat)
    requires
        n < 100,
    ensures
        zero_padded(decimal(n), 2).len() == 2,
        digits_value(zero_padded(decimal(n), 2)) == n,
{
    lemma_decimal_reads_back(n);
    let s = zero_padded(decimal(n), 2);
    reveal_with_fuel(decimal, 2);
    if n < 10 {
        assert(decimal(n).len() == 1);
        assert(s =~= seq!['0', decimal(n)[0]]);
        reveal_with_fuel(digits_value, 3);
        assert(s.drop_last() =~= seq!['0']);
        assert(seq!['0'].drop_last() =~= Seq::empty());
        assert(decimal(n).drop_last() =~= Seq::empty());
    } else {
        assert(decimal(n / 10).len() == 1);
        assert(decimal(n).len() == 2);
    }
}

/// A time is shown as it is where the reader is: so many seconds later as the zone is ahead,
/// never before the start of 1970.
pub proof fn law_local_time_is_ahead_by_the_offset(secs: u64, offset: int)
    requires
        secs <= i64::MAX,
    ensures
        0 <= secs + offset <= i64::MAX ==> local_secs(secs, offset) == secs + offset,
        secs + offset < 0 ==> local_secs(secs, offset) == 0,
        secs + offset > i64::MAX ==> local_secs(secs, offset) == i64::MAX,
{
}

/// The host of `user@host:port` is what stands between the two marks, and of a text without
/// them the whole text.
pub proof fn law_the_host_stands_between_user_and_port(
    user: Seq<char>,
    host: Seq<char>,
    port: Seq<char>,
)
    requires
        forall|i: int| 0 <= i < host.len() ==> host[i] != '@' && host[i] != ':',
        forall|i: int| 0 <= i < port.len() ==> port[i] != '@',
    ensures
        endpoint_host(user + seq!['@'] + host + seq![':'] + port) == host,
        endpoint_host(user + seq!['@'] + host) == host,
        endpoint_host(host + seq![':'] + port) == host,
        endpoint_host(host) == host,
{
    let full = user + seq!['@'] + host + seq![':'] + port;
    lemma_last_of(full, '@', user.len() as int);
    let rest = host + seq![':'] + port;
    assert(full.skip(user.len() as int + 1) =~= rest);
    lemma_first_of(rest, ':', host.len() as int);
    assert(rest.take(host.len() as int) =~= host);
    let half = user + seq!['@'] + host;
    lemma_last_of(half, '@', user.len() as int);
    assert(half.skip(user.len() as int + 1) =~= host);
    lemma_first_of(host, ':', host.len() as int);
    lemma_last_of(rest, '@', -1);
    lemma_last_of(host, '@', -1);
}

/// A pattern without a percent sign is the name itself, and each of the marks alone stands
/// for its own part of the moment or of the session.
pub proof fn law_each_mark_stands_for_its_part(
    pattern: Seq<char>,
    name: Seq<char>,
    endpoint: Seq<char>,
    at: Moment,
)
    requires
        forall|i: int| 0 <= i < name.len() ==> name[i] != '%',
        forall|i: int| 0 <= i < endpoint_host(endpoint).len() ==> endpoint_host(endpoint)[i] != '%',
        0 <= at.year,
    ensures
        (forall|i: int| 0 <= i < pattern.len() ==> pattern[i] != '%') ==> log_name(
            pattern,
            name,
            endpoint,
            at,
        ) == pattern,
        log_name("%N"@, name, endpoint, at) == name,
        log_name("%H"@, name, endpoint, at) == endpoint_host(endpoint),
        log_name("%Y"@, name, endpoint, at) == zero_padded(decimal(at.year as nat), 4),
        log_name("%M"@, name, endpoint, at) == zero_padded(decimal(at.month as nat), 2),
        log_name("%D"@, name, endpoint, at) == zero_padded(decimal(at.day as nat), 2),
        log_name("%h"@, name, endpoint, at) == zero_padded(decimal(at.hour as nat), 2),
        log_name("%m"@, name, endpoint, at) == zero_padded(decimal(at.minute as nat), 2),
        log_name("%s"@, name, endpoint, at) == zero_padded(decimal(at.second as nat), 2),
{
    let host = endpoint_host(endpoint);
    reveal_strlit("%N");
    reveal_strlit("%H");
    reveal_strlit("%Y");
    reveal_strlit("%M");
    reveal_strlit("%D");
    reveal_strlit("%h");
    reveal_strlit("%m");
    reveal_strlit("%s");
    lemma_numbers_have_no_percent(at.year as nat, 4);
    lemma_numbers_have_no_percent(at.month as nat, 2);
    lemma_numbers_have_no_percent(at.day as nat, 2);
    lemma_numbers_have_no_percent(at.hour as nat, 2);
    lemma_numbers_have_no_percent(at.minute as nat, 2);
    lemma_numbers_have_no_percent(at.second as nat, 2);
    assert forall|s: Seq<char>, mark: Seq<char>, to: Seq<char>|
        mark.len() == 2 && mark[0] == '%' && no_percent(s) implies #[trigger] replaced(s, mark, to)
        == s by {
        lemma_mark_absent(s, mark, to);
    }
    if forall|i: int| 0 <= i < pattern.len() ==> pattern[i] != '%' {
        assert(no_percent(pattern));
    }
    assert(no_percent(name) && no_percent(host));
    lemma_mark_replaced("%N"@, "%N"@, name);
    lemma_mark_replaced("%H"@, "%H"@, host);
    lemma_mark_replaced("%Y"@, "%Y"@, year_text(at.year as int));
    lemma_mark_replaced("%M"@, "%M"@, two_digits(at.month as int));
    lemma_mark_replaced("%D"@, "%D"@, two_digits(at.day as int));
    lemma_mark_replaced("%h"@, "%h"@, two_digits(at.hour as int));
    lemma_mark_replaced("%m"@, "%m"@, two_digits(at.minute as int));
    lemma_mark_replaced("%s"@, "%s"@, two_digits(at.second as int));
    assert forall|mark: Seq<char>, other: Seq<char>, to: Seq<char>|
        mark.len() == 2 && other.len() == 2 && mark[1] != other[1] && other[0] == '%' && mark[1]
            != '%' implies #[trigger] replaced(mark, other, to) == mark by {
        lemma_other_mark(mark, other, to);
    }
}

spec fn no_percent(s: Seq<char>) -> bool {
    forall|i: int| 0 <= i < s.len() ==> s[i] != '%'
}

proof fn lemma_numbers_have_no_percent(n: nat, width: nat)
    ensures
        no_percent(zero_padded(decimal(n), width)),
{
    lemma_decimal_reads_back(n);
    let digits = decimal(n);
    let s = zero_padded(digits, width);
    assert forall|i: int| 0 <= i < s.len() implies s[i] != '%' by {
        if i >= s.len() - digits.len() {
            assert(s[i] == digits[i - (s.len() - digits.len())]);
            assert(is_digit(digits[i - (s.len() - digits.len())]));
        }
    }
}

proof fn lemma_mark_absent(s: Seq<char>, mark: Seq<char>, to: Seq<char>)
    requires
        mark.len() == 2,
        mark[0] == '%',
        no_percent(s),
    ensures
        replaced(s, mark, to) == s,
{
    assert forall|at: int| !#[trigger] stands_at(s, mark, at) by {
        if stands_at(s, mark, at) {
            assert(s.subrange(at, at + 2)[0] == s[at]);
        }
    }
    law_replacing_what_is_not_there_changes_nothing(s, mark, to);
}

proof fn lemma_mark_replaced(s: Seq<char>, mark: Seq<char>, to: Seq<char>)
    requires
        s == mark,
        mark.len() == 2,
    ensures
        replaced(s, mark, to) == to,
{
    assert(s.subrange(0, 2) =~= mark);
    law_replacing_goes_from_left_to_right(s, mark, to, 0);
    assert(s.take(0) =~= Seq::empty());
    assert(s.skip(2) =~= Seq::empty());
    assert(Seq::<char>::empty() + to + Seq::<char>::empty() =~= to);
}

proof fn lemma_other_mark(s: Seq<char>, mark: Seq<char>, to: Seq<char>)
    requires
        s.len() == 2,
        mark.len() == 2,
        s[1] != mark[1],
    ensures
        replaced(s, mark, to) == s,
{
    assert forall|at: int| !#[trigger] stands_at(s, mark, at) by {
        if stands_at(s, mark, at) {
            assert(s.subrange(0, 2)[1] == s[1]);
        }
    }
    law_replacing_what_is_not_there_changes_nothing(s, mark, to);
}

} // verus!
