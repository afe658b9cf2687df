use botcore::durations::{
    due_time, position_lifetime, reminder_delay, requested_delay, DelayError, ONE_DAY_SECS,
    ONE_HOUR_SECS, ONE_YEAR_SECS,
};

#[test]
fn missing_delay_falls_back_to_the_default() {
    assert_eq!(reminder_delay(&None), Ok(ONE_HOUR_SECS));
    assert_eq!(position_lifetime(&None), Ok(ONE_HOUR_SECS));
}

#[test]
fn parsed_delays_come_back_in_seconds() {
    assert_eq!(reminder_delay(&Some("3m".to_string())), Ok(180));
    assert_eq!(reminder_delay(&Some("2 hours".to_string())), Ok(7200));
    assert_eq!(position_lifetime(&Some("90m".to_string())), Ok(5400));
}

#[test]
fn oversized_delays_clamp_to_the_ceiling() {
    assert_eq!(reminder_delay(&Some("3 years".to_string())), Ok(ONE_YEAR_SECS));
    assert_eq!(position_lifetime(&Some("3 days".to_string())), Ok(ONE_DAY_SECS));
}

#[test]
fn unreadable_delays_are_a_user_error() {
    assert_eq!(
        reminder_delay(&Some("soonish".to_string())),
        Err(DelayError::Unparseable)
    );
    assert_eq!(
        requested_delay(&Some("".to_string()), 5, 10),
        Err(DelayError::Unparseable)
    );
}

#[test]
fn due_time_is_now_plus_the_delay() {
    assert_eq!(due_time(1_700_000_000, 180), 1_700_000_180);
}
