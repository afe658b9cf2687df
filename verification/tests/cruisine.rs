use botcore::cruisine::parse_cruisine_letters;
use botcore::cruisine::PositionError;

#[test]
fn test_parse_cruisine_letters() {
    for x in 'A'..='J' {
        for y in 1..=10 {
            let pos = format!("{}{}", x, y);
            assert_eq!(parse_cruisine_letters(&pos).unwrap(), (x, y));

            let pos_reverse = format!("{}{}", y, x);
            assert_eq!(parse_cruisine_letters(&pos_reverse).unwrap(), (x, y));
        }
    }
}

#[test]
fn test_reject_invalid_cruisine_letters() {
    assert!(parse_cruisine_letters("A11").is_err());
    assert!(parse_cruisine_letters("K5").is_err());
    assert!(parse_cruisine_letters("A").is_err());
    assert!(parse_cruisine_letters("10").is_err());
}

#[test]
fn lowercase_positions_parse() {
    assert_eq!(parse_cruisine_letters("b7").unwrap(), ('B', 7));
    assert_eq!(parse_cruisine_letters("7b").unwrap(), ('B', 7));
    assert_eq!(parse_cruisine_letters("j10").unwrap(), ('J', 10));
}

#[test]
fn each_error_has_an_input() {
    assert_eq!(
        parse_cruisine_letters("A123").unwrap_err(),
        PositionError::BadLength
    );
    assert_eq!(parse_cruisine_letters("12").unwrap_err(), PositionError::NoLetter);
    assert_eq!(parse_cruisine_letters("AB").unwrap_err(), PositionError::BadNumber);
    assert_eq!(parse_cruisine_letters("K5").unwrap_err(), PositionError::OutOfBounds);
    assert_eq!(parse_cruisine_letters("A0").unwrap_err(), PositionError::OutOfBounds);
}

#[test]
fn plus_prefixed_numbers_parse_like_the_standard_parser() {
    assert_eq!(parse_cruisine_letters("A+5").unwrap(), ('A', 5));
    assert!(parse_cruisine_letters("A+").is_err());
}
