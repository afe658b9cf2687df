//! Meetup scheduling times.
//!
//! The event command takes a free-form start time and an optional end
//! time, reads both in the bot's home time zone with a default hour for
//! date-only inputs, and falls back to "one hour after the start" when no
//! end is given. Times are carried as Unix timestamps.

use vstd::prelude::*;

verus! {

/// The zone event inputs are read in.
pub const HOME_ZONE: &'static str = "Europe/Berlin";

/// The hour of day assumed when an input names only a date.
pub const DEFAULT_EVENT_HOUR: u8 = 10;

/// Seconds in the default event length.
pub const ONE_HOUR_EVENT: i64 = 3600;

#[verifier::external_type_specification]
#[verifier::external_body]
pub struct ExTz(chrono_tz::Tz);

/// Relies on chrono_tz's `FromStr`: looks an IANA zone name up in the
/// compiled zone table.
#[verifier::external_body]
fn lookup_timezone(name: &str) -> (r: Option<chrono_tz::Tz>) {
    name.parse().ok()
}

/// Relies on dateparser::parse_with: reads a datetime in the given zone,
/// completing date-only inputs with the given hour. Relative inputs
/// ("yesterday") consult the clock, so nothing beyond success or failure
/// is promised of the value.
#[verifier::external_body]
fn parse_datetime_in(input: &str, tz: &chrono_tz::Tz, default_hour: u8) -> (r: Option<i64>) {
    let t = chrono::NaiveTime::from_hms_opt(default_hour as u32, 0, 0)?;
    dateparser::parse_with(input, tz, t).ok().map(|d| d.timestamp())
}

/// Why an event's times were rejected.
#[derive(Clone, Copy, PartialEq, Eq, Structural, Debug)]
pub enum EventTimeError {
    /// The home zone is missing from the zone table.
    NoZone,
    /// The start time could not be read.
    BadStart,
    /// The given end time could not be read, or the default end would not
    /// fit a timestamp.
    BadEnd,
}

/// Combine what the parser made of the two inputs. `end` is absent when no
/// end was given, and carries the parse result when one was: a missing end
/// defaults to exactly one hour after the start, a given one is taken as
/// parsed, and a start too late for the default end to fit a timestamp is
/// rejected.
pub fn combine_event_times(start: Option<i64>, end: Option<Option<i64>>) -> (r: Result<
    (i64, i64),
    EventTimeError,
>)
    ensures
        match start {
            None => r == Err::<(i64, i64), EventTimeError>(EventTimeError::BadStart),
            Some(s) => match end {
                None => {
                    if s > i64::MAX - ONE_HOUR_EVENT {
                        r == Err::<(i64, i64), EventTimeError>(EventTimeError::BadEnd)
                    } else {
                        r == Ok::<(i64, i64), EventTimeError>((s, (s + ONE_HOUR_EVENT) as i64))
                    }
                },
                Some(None) => r == Err::<(i64, i64), EventTimeError>(EventTimeError::BadEnd),
                Some(Some(e)) => r == Ok::<(i64, i64), EventTimeError>((s, e)),
            },
        },
{
    let s = match start {
        None => {
            return Err(EventTimeError::BadStart);
        },
        Some(s) => s,
    };
    match end {
        None => {
            if s > i64::MAX - ONE_HOUR_EVENT {
                Err(EventTimeError::BadEnd)
            } else {
                Ok((s, s + ONE_HOUR_EVENT))
            }
        },
        Some(None) => Err(EventTimeError::BadEnd),
        Some(Some(e)) => Ok((s, e)),
    }
}

/// Read an event's start and end as timestamps. A missing end defaults to
/// exactly one hour after the start; whatever the parser made of the
/// inputs, that relation holds of every successful result.
pub fn parse_start_and_end_date(start: String, end: Option<String>) -> (r: Result<
    (i64, i64),
    EventTimeError,
>)
    ensures
        match r {
            Ok(t) => end is None ==> t.1 == t.0 + ONE_HOUR_EVENT,
            Err(_) => true,
        },
{
    let tz = match lookup_timezone(HOME_ZONE) {
        None => {
            return Err(EventTimeError::NoZone);
        },
        Some(tz) => tz,
    };
    let start_ts = parse_datetime_in(start.as_str(), &tz, DEFAULT_EVENT_HOUR);
    let end_ts = match end {
        None => None,
        Some(e) => Some(parse_datetime_in(e.as_str(), &tz, DEFAULT_EVENT_HOUR)),
    };
    combine_event_times(start_ts, end_ts)
}

} // verus!
