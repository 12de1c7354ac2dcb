//! The timezone policy: UTC or a fixed offset, the calendar date of a
//! timestamp in that zone, and whole-day differences.
//!
//! Calendar arithmetic is done by `chrono`; this module states what it
//! relies on and keeps every call inside the range chrono can represent.

use vstd::prelude::*;
use vstd::string::*;

use crate::domain::text::{
    ascii_lower, chars_of, digit_char, digit_value, i64_to_string, is_digit, lower_char,
    signed_decimal, trim, trim_bounds,
};
use crate::error::{TideError, TideResult};

verus! {

/// The first second of the earliest date chrono represents
/// (1 January of the year -262143).
pub const MIN_TIMESTAMP: i64 = -8_334_601_228_800;

/// The last second of the latest date chrono represents
/// (31 December of the year 262142).
pub const MAX_TIMESTAMP: i64 = 8_210_266_876_799;

/// Whether `seconds`, taken as a local time, falls on a date that chrono
/// represents.
pub open spec fn in_calendar_range(seconds: int) -> bool {
    MIN_TIMESTAMP <= seconds <= MAX_TIMESTAMP
}

/// Whether `seconds` is an offset from UTC of less than a day.
pub open spec fn is_offset(seconds: int) -> bool {
    -86_400 < seconds < 86_400
}

/// The day number, counted from 1 January of year 1, of the calendar date
/// on which the instant `timestamp` falls in a zone `offset` seconds east
/// of UTC. A day has 86400 seconds, and 1 January 1970 is day 719163.
pub open spec fn day_number(timestamp: int, offset: int) -> int {
    (timestamp + offset) / 86_400 + 719_163
}

/// A number below 100 as two decimal digits.
pub open spec fn two_digits(n: int) -> Seq<char> {
    seq![digit_char(n / 10), digit_char(n % 10)]
}

/// The rendering of an offset: sign, hours and minutes as `+HH:MM`, and
/// `:SS` after them where the seconds are not zero.
pub open spec fn offset_text(seconds: int) -> Seq<char> {
    let sign = if seconds < 0 {
        '-'
    } else {
        '+'
    };
    let size = if seconds < 0 {
        -seconds
    } else {
        seconds
    };
    let head = seq![sign] + two_digits(size / 3600) + seq![':'] + two_digits((size / 60) % 60);
    if size % 60 == 0 {
        head
    } else {
        head + seq![':'] + two_digits(size % 60)
    }
}

/// `chrono::FixedOffset::east_opt`, read back with `local_minus_utc`: an
/// offset of less than a day east of UTC is accepted as it is, any other
/// is refused.
#[verifier::external_body]
fn chrono_east(seconds: i32) -> (r: Option<i32>)
    ensures
        r == if is_offset(seconds as int) {
            Some(seconds)
        } else {
            None
        },
{
    chrono::FixedOffset::east_opt(seconds).map(|offset| offset.local_minus_utc())
}

/// `chrono::FixedOffset::west_opt`, read back with `local_minus_utc`: an
/// offset of less than a day west of UTC is accepted and counts negative,
/// any other is refused.
#[verifier::external_body]
fn chrono_west(seconds: i32) -> (r: Option<i32>)
    ensures
        r == if is_offset(seconds as int) {
            Some((-seconds) as i32)
        } else {
            None
        },
{
    chrono::FixedOffset::west_opt(seconds).map(|offset| offset.local_minus_utc())
}

/// The `Display` form of a `chrono::FixedOffset`: the sign, then hours
/// and minutes as two digits each with a colon between, then the seconds
/// in the same way where they are not zero.
#[verifier::external_body]
fn chrono_offset_name(seconds: i32) -> (r: Option<String>)
    ensures
        is_offset(seconds as int) ==> r is Some && r->0@ == offset_text(seconds as int),
        !is_offset(seconds as int) ==> r is None,
{
    chrono::FixedOffset::east_opt(seconds).map(|offset| offset.to_string())
}

/// `chrono::DateTime::<Utc>::from_timestamp` with no nanoseconds, then
/// `date_naive` and `num_days_from_ce`: the day number of the UTC date of
/// a timestamp, for the timestamps whose date chrono represents.
#[verifier::external_body]
fn chrono_utc_day(timestamp: i64) -> (r: Option<i32>)
    ensures
        r == if in_calendar_range(timestamp as int) {
            Some(day_number(timestamp as int, 0) as i32)
        } else {
            None
        },
{
    chrono::DateTime::<chrono::Utc>::from_timestamp(timestamp, 0).map(
        |instant| chrono::Datelike::num_days_from_ce(&instant.date_naive()),
    )
}

/// `chrono::DateTime::with_timezone` into a `FixedOffset`, then
/// `date_naive` and `num_days_from_ce`: the day number of the local date
/// of a timestamp. `date_naive` panics where the local date is one that
/// chrono does not represent, so such a pair is not handed in.
#[verifier::external_body]
fn chrono_local_day(timestamp: i64, offset: i32) -> (r: Option<i32>)
    requires
        is_offset(offset as int),
        in_calendar_range(timestamp as int) ==> in_calendar_range(timestamp + offset),
    ensures
        r == if in_calendar_range(timestamp as int) {
            Some(day_number(timestamp as int, offset as int) as i32)
        } else {
            None
        },
{
    let zone = chrono::FixedOffset::east_opt(offset)?;
    chrono::DateTime::<chrono::Utc>::from_timestamp(timestamp, 0).map(
        |instant| chrono::Datelike::num_days_from_ce(&instant.with_timezone(&zone).date_naive()),
    )
}

/// A calendar date, held as its day number counted from 1 January of
/// year 1 in the proleptic Gregorian calendar.
#[derive(Debug, Clone, Copy, PartialEq, Eq, Structural)]
pub struct CalendarDate {
    pub days_from_ce: i32,
}

/// An offset from UTC in whole minutes, of less than a day.
#[derive(Debug, Clone, Copy, PartialEq, Eq)]
pub struct UtcOffset {
    seconds: i32,
}

impl UtcOffset {
    #[verifier::type_invariant]
    spec fn well_formed(self) -> bool {
        is_offset(self.seconds as int) && self.seconds as int % 60 == 0
    }

    /// Seconds east of UTC.
    pub closed spec fn spec_seconds(self) -> int {
        self.seconds as int
    }

    /// Seconds east of UTC: a multiple of 60, less than a day either way.
    pub fn seconds(&self) -> (s: i32)
        ensures
            s == self.spec_seconds(),
            is_offset(s as int),
            s as int % 60 == 0,
    {
        proof {
            use_type_invariant(self);
        }
        self.seconds
    }
}

/// How timestamps are turned into calendar dates.
#[derive(Debug, Clone, Copy, PartialEq, Eq)]
pub enum TimezonePolicy {
    Utc,
    Fixed(UtcOffset),
}

/// Whether `s` spells UTC: `UTC` or `Z`, in either case.
pub open spec fn is_utc_spelling(s: Seq<char>) -> bool {
    ||| s.len() == 3 && ascii_lower(s[0]) == 'u' && ascii_lower(s[1]) == 't' && ascii_lower(s[2])
        == 'c'
    ||| s.len() == 1 && ascii_lower(s[0]) == 'z'
}

/// The offset in seconds that `s` spells: a sign, two digits of hours up
/// to 23, a colon and two digits of minutes up to 59. `None` for any other
/// spelling.
pub open spec fn offset_of_spelling(s: Seq<char>) -> Option<int> {
    if s.len() == 6 && (s[0] == '+' || s[0] == '-') && is_digit(s[1]) && is_digit(s[2]) && s[3]
        == ':' && is_digit(s[4]) && is_digit(s[5]) {
        let hours = digit_value(s[1]) * 10 + digit_value(s[2]);
        let minutes = digit_value(s[4]) * 10 + digit_value(s[5]);
        if hours <= 23 && minutes <= 59 {
            Some(
                if s[0] == '+' {
                    hours * 3600 + minutes * 60
                } else {
                    -(hours * 3600 + minutes * 60)
                },
            )
        } else {
            None
        }
    } else {
        None
    }
}

fn char_digit_value(c: char) -> (r: Option<i32>)
    ensures
        r is Some <==> is_digit(c),
        r matches Some(d) ==> d == digit_value(c) && 0 <= d <= 9,
{
    if '0' <= c && c <= '9' {
        Some((c as u32 - 48) as i32)
    } else {
        None
    }
}

fn two_digit_number(high: char, low: char) -> (r: Option<i32>)
    ensures
        r is Some <==> is_digit(high) && is_digit(low),
        r matches Some(n) ==> n == digit_value(high) * 10 + digit_value(low) && 0 <= n <= 99,
{
    match (char_digit_value(high), char_digit_value(low)) {
        (Some(h), Some(l)) => Some(h * 10 + l),
        _ => None,
    }
}

fn spells_utc(s: &Vec<char>) -> (r: bool)
    ensures
        r == is_utc_spelling(s@),
{
    if s.len() == 3 {
        lower_char(s[0]) == 'u' && lower_char(s[1]) == 't' && lower_char(s[2]) == 'c'
    } else if s.len() == 1 {
        lower_char(s[0]) == 'z'
    } else {
        false
    }
}

/// Reads a fixed offset `+HH:MM` or `-HH:MM`.
pub fn parse_fixed_offset(raw: &str) -> (r: Option<UtcOffset>)
    ensures
        match offset_of_spelling(raw@) {
            Some(seconds) => r is Some && r->0.spec_seconds() == seconds,
            None => r is None,
        },
{
    let s = chars_of(raw);
    parse_offset_chars(&s)
}

fn parse_offset_chars(s: &Vec<char>) -> (r: Option<UtcOffset>)
    ensures
        match offset_of_spelling(s@) {
            Some(seconds) => r is Some && r->0.spec_seconds() == seconds,
            None => r is None,
        },
{
    if s.len() != 6 {
        return None;
    }
    let sign = s[0];
    if sign != '+' && sign != '-' {
        return None;
    }
    if s[3] != ':' {
        return None;
    }
    let hours = match two_digit_number(s[1], s[2]) {
        Some(h) => h,
        None => {
            return None;
        },
    };
    let minutes = match two_digit_number(s[4], s[5]) {
        Some(m) => m,
        None => {
            return None;
        },
    };
    if hours > 23 || minutes > 59 {
        return None;
    }
    let total: i32 = hours * 3600 + minutes * 60;
    let placed = if sign == '+' {
        chrono_east(total)
    } else {
        chrono_west(total)
    };
    match placed {
        Some(seconds) => Some(UtcOffset { seconds }),
        None => None,
    }
}

impl TimezonePolicy {
    /// Seconds east of UTC that the policy adds to a timestamp.
    pub open spec fn offset(self) -> int {
        match self {
            TimezonePolicy::Utc => 0,
            TimezonePolicy::Fixed(o) => o.spec_seconds(),
        }
    }

    /// The canonical name: `UTC`, or the rendering of the offset.
    pub open spec fn name(self) -> Seq<char> {
        match self {
            TimezonePolicy::Utc => "UTC"@,
            TimezonePolicy::Fixed(o) => offset_text(o.spec_seconds()),
        }
    }

    /// The policy that `raw` spells once trimmed, if any.
    pub open spec fn spelled(raw: Seq<char>, policy: TimezonePolicy) -> bool {
        if is_utc_spelling(trim(raw)) {
            policy is Utc
        } else {
            policy matches TimezonePolicy::Fixed(o) && offset_of_spelling(trim(raw)) == Some(
                o.spec_seconds(),
            )
        }
    }

    /// Whether `raw`, once trimmed, spells a policy.
    pub open spec fn is_spelling(raw: Seq<char>) -> bool {
        is_utc_spelling(trim(raw)) || offset_of_spelling(trim(raw)) is Some
    }

    /// Reads a timezone: `UTC` or `Z` in either case, or `+HH:MM` /
    /// `-HH:MM`; white space around it is ignored. Anything else is an
    /// `InvalidTimezone` that carries `raw` as it was given.
    pub fn parse(raw: &str) -> (r: TideResult<TimezonePolicy>)
        ensures
            match r {
                Ok(policy) => Self::is_spelling(raw@) && Self::spelled(raw@, policy),
                Err(e) => {
                    &&& !Self::is_spelling(raw@)
                    &&& e matches TideError::InvalidTimezone { value }
                    &&& value@ == raw@
                },
            },
    {
        let chars = chars_of(raw);
        let (start, end) = trim_bounds(&chars);
        let mut trimmed: Vec<char> = Vec::new();
        let mut i: usize = start;
        while i < end
            invariant
                start <= i <= end <= chars.len(),
                trimmed@ == chars@.subrange(start as int, i as int),
            decreases end - i,
        {
            trimmed.push(chars[i]);
            i += 1;
        }
        if spells_utc(&trimmed) {
            return Ok(TimezonePolicy::Utc);
        }
        match parse_offset_chars(&trimmed) {
            Some(offset) => Ok(TimezonePolicy::Fixed(offset)),
            None => Err(TideError::InvalidTimezone { value: String::from_str(raw) }),
        }
    }

    /// The canonical name of the policy.
    pub fn canonical_name(&self) -> (out: String)
        ensures
            out@ == self.name(),
    {
        match self {
            TimezonePolicy::Utc => String::from_str("UTC"),
            TimezonePolicy::Fixed(offset) => {
                match chrono_offset_name(offset.seconds()) {
                    Some(name) => name,
                    None => String::new(),
                }
            },
        }
    }

    /// Whether the calendar date of `timestamp` under this policy can be
    /// told: the instant and its local time both fall on dates that chrono
    /// represents.
    pub open spec fn covers(self, timestamp: int) -> bool {
        in_calendar_range(timestamp) && in_calendar_range(timestamp + self.offset())
    }

    /// The calendar date on which `timestamp` falls under this policy.
    /// A timestamp outside the calendar's range is an `Internal` failure
    /// that names it.
    pub fn date_for_timestamp(&self, timestamp: i64) -> (r: TideResult<CalendarDate>)
        ensures
            match r {
                Ok(date) => self.covers(timestamp as int) && date.days_from_ce == day_number(
                    timestamp as int,
                    self.offset(),
                ),
                Err(e) => {
                    &&& !self.covers(timestamp as int)
                    &&& e matches TideError::Internal { message }
                    &&& message@ == "invalid unix timestamp: "@ + signed_decimal(timestamp as int)
                },
            },
    {
        let day = match self {
            TimezonePolicy::Utc => chrono_utc_day(timestamp),
            TimezonePolicy::Fixed(offset) => {
                let seconds = offset.seconds();
                if timestamp < MIN_TIMESTAMP || timestamp > MAX_TIMESTAMP {
                    None
                } else {
                    let local: i64 = timestamp + seconds as i64;
                    if local < MIN_TIMESTAMP || local > MAX_TIMESTAMP {
                        None
                    } else {
                        chrono_local_day(timestamp, seconds)
                    }
                }
            },
        };
        match day {
            Some(days_from_ce) => Ok(CalendarDate { days_from_ce }),
            None => {
                let mut message = String::from_str("invalid unix timestamp: ");
                message.append(i64_to_string(timestamp).as_str());
                Err(TideError::Internal { message })
            },
        }
    }

    /// The whole days from the date of `anchor_ts` to the date of
    /// `target_ts` under this policy; negative where the target's date is
    /// the earlier one.
    pub fn day_delta(&self, anchor_ts: i64, target_ts: i64) -> (r: TideResult<i64>)
        ensures
            match r {
                Ok(days) => self.covers(anchor_ts as int) && self.covers(target_ts as int) && days
                    == day_number(target_ts as int, self.offset()) - day_number(
                    anchor_ts as int,
                    self.offset(),
                ),
                Err(e) => {
                    &&& e matches TideError::Internal { message }
                    &&& if !self.covers(anchor_ts as int) {
                        message@ == "invalid unix timestamp: "@ + signed_decimal(anchor_ts as int)
                    } else {
                        !self.covers(target_ts as int) && message@ == "invalid unix timestamp: "@
                            + signed_decimal(target_ts as int)
                    }
                },
            },
    {
        let anchor_date = self.date_for_timestamp(anchor_ts)?;
        let target_date = self.date_for_timestamp(target_ts)?;
        Ok(target_date.days_from_ce as i64 - anchor_date.days_from_ce as i64)
    }
}

} // verus!
