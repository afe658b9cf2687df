use botcore::events::{combine_event_times, parse_start_and_end_date, EventTimeError};
use botcore::picks::{animal_api_url, palette_colour, pick_animal_api, random_color, PALETTE_SIZE};

#[test]
fn test_parse_dates() {
    let (start, end) = parse_start_and_end_date("1970-01-01 00:00".to_string(), None).unwrap();
    assert_eq!(start + 3600, end);

    let (start, end) = parse_start_and_end_date(
        "2012-12-31 12:34".to_string(),
        Some("2013-01-01 21:43".to_string()),
    )
    .unwrap();
    assert_eq!(start, 1356953640);
    assert_eq!(end, 1357072980);
}

#[test]
fn test_reject_invalid_dates() {
    assert!(parse_start_and_end_date("".to_string(), None).is_err());
    assert!(
        parse_start_and_end_date("1970-01-01 00:00".to_string(), Some("".to_string())).is_err()
    );
    assert!(parse_start_and_end_date("not a date".to_string(), None).is_err());
    assert!(parse_start_and_end_date(
        "1970-01-01 00:00".to_string(),
        Some("not a date".to_string()),
    )
    .is_err());
}

#[test]
fn combining_event_times_defaults_the_end() {
    assert_eq!(combine_event_times(Some(100), None), Ok((100, 3700)));
    assert_eq!(combine_event_times(Some(100), Some(Some(500))), Ok((100, 500)));
    assert_eq!(
        combine_event_times(None, Some(Some(500))),
        Err(EventTimeError::BadStart)
    );
    assert_eq!(
        combine_event_times(Some(100), Some(None)),
        Err(EventTimeError::BadEnd)
    );
    assert_eq!(
        combine_event_times(Some(i64::MAX - 100), None),
        Err(EventTimeError::BadEnd)
    );
}

#[test]
fn random_colors_come_from_the_palette() {
    let palette: Vec<u32> = (0..PALETTE_SIZE).map(palette_colour).collect();
    for _ in 0..100 {
        assert!(palette.contains(&random_color()));
    }
}

#[test]
fn animal_services_have_their_urls() {
    assert_eq!(animal_api_url(0, "", ""), "https://randomfox.ca/floof/");
    assert_eq!(
        animal_api_url(3, "", ""),
        "https://dog.ceo/api/breeds/image/random"
    );
    assert_eq!(
        animal_api_url(5, "CAT", "DOG"),
        "https://api.thecatapi.com/v1/images/search?api_key=CAT"
    );
    assert_eq!(
        animal_api_url(6, "CAT", "DOG"),
        "https://api.thedogapi.com/v1/images/search?api_key=DOG"
    );
    for _ in 0..50 {
        assert!(pick_animal_api() < 7);
    }
}
