//! User-supplied delays.
//!
//! Several commands accept a human-readable duration ("3m", "2 hours") for
//! how long something should last — a reminder's lead time, a canteen
//! position's lifetime. A missing duration falls back to the feature's
//! default, an oversized one is clamped to the feature's ceiling, and one
//! that does not parse is a user error.

use vstd::prelude::*;

verus! {

pub const ONE_HOUR_SECS: u64 = 3600;

pub const ONE_DAY_SECS: u64 = 86400;

pub const ONE_YEAR_SECS: u64 = 31536000;

/// What the duration parser makes of a string, in whole seconds; a
/// function of the string alone.
pub uninterp spec fn parsed_duration_secs(s: Seq<char>) -> Option<u64>;

/// Relies on parse_duration::parse: a pure function of the input string
/// (regular expressions and arithmetic, no clock); subseconds are dropped.
#[verifier::external_body]
fn parse_duration_secs(s: &str) -> (r: Option<u64>)
    ensures
        r == parsed_duration_secs(s@),
{
    match parse_duration::parse(s) {
        Ok(d) => Some(d.as_secs()),
        Err(_) => None,
    }
}

/// The duration string could not be read.
#[derive(Clone, Copy, PartialEq, Eq, Structural, Debug)]
pub enum DelayError {
    Unparseable,
}

/// The delay a command should use: the feature's default when the user
/// gave none, the parsed value clamped to the feature's ceiling when they
/// did, an error when their input does not parse.
pub fn requested_delay(time: &Option<String>, default_secs: u64, max_secs: u64) -> (r: Result<
    u64,
    DelayError,
>)
    ensures
        time is None ==> r == Ok::<u64, DelayError>(default_secs),
        match time {
            None => r == Ok::<u64, DelayError>(default_secs),
            Some(s) => match parsed_duration_secs(s@) {
                Some(d) => r == Ok::<u64, DelayError>(
                    if d <= max_secs {
                        d
                    } else {
                        max_secs
                    },
                ),
                None => r == Err::<u64, DelayError>(DelayError::Unparseable),
            },
        },
{
    match time {
        None => Ok(default_secs),
        Some(s) => match parse_duration_secs(s.as_str()) {
            None => Err(DelayError::Unparseable),
            Some(d) => {
                if d <= max_secs {
                    Ok(d)
                } else {
                    Ok(max_secs)
                }
            },
        },
    }
}

/// A reminder's lead time: one hour by default, one year at most.
pub fn reminder_delay(time: &Option<String>) -> (r: Result<u64, DelayError>)
    ensures
        time is None ==> r == Ok::<u64, DelayError>(ONE_HOUR_SECS),
        match time {
            None => r == Ok::<u64, DelayError>(ONE_HOUR_SECS),
            Some(s) => match parsed_duration_secs(s@) {
                Some(d) => r == Ok::<u64, DelayError>(
                    if d <= ONE_YEAR_SECS {
                        d
                    } else {
                        ONE_YEAR_SECS
                    },
                ),
                None => r == Err::<u64, DelayError>(DelayError::Unparseable),
            },
        },
{
    requested_delay(time, ONE_HOUR_SECS, ONE_YEAR_SECS)
}

/// A canteen position's lifetime: one hour by default, one day at most.
pub fn position_lifetime(expires: &Option<String>) -> (r: Result<u64, DelayError>)
    ensures
        expires is None ==> r == Ok::<u64, DelayError>(ONE_HOUR_SECS),
        match expires {
            None => r == Ok::<u64, DelayError>(ONE_HOUR_SECS),
            Some(s) => match parsed_duration_secs(s@) {
                Some(d) => r == Ok::<u64, DelayError>(
                    if d <= ONE_DAY_SECS {
                        d
                    } else {
                        ONE_DAY_SECS
                    },
                ),
                None => r == Err::<u64, DelayError>(DelayError::Unparseable),
            },
        },
{
    requested_delay(expires, ONE_HOUR_SECS, ONE_DAY_SECS)
}

/// When a reminder created now with the given delay falls due.
pub fn due_time(now: i64, delay_secs: u64) -> (r: i64)
    requires
        delay_secs <= i64::MAX,
        now + delay_secs <= i64::MAX,
    ensures
        r == now + delay_secs,
{
    now + (delay_secs as i64)
}

} // verus!
