use speak::day::Day;
use speak::error::IoKind;
use speak::error::SpeakError;
use speak::name::Name;

#[test]
fn parse_name() {
    assert_eq!(
        Ok(Name::new("Fred", "Flintstone")),
        "Fred Flintstone".parse()
    );
}

#[test]
fn parse_three_part_name() {
    assert_eq!(
        Ok(Name::new("Fred Fredington", "Flintstone")),
        "Fred Fredington Flintstone".parse()
    );
}

#[test]
fn parse_single_name() {
    assert_eq!(Ok(Name::new("Fred", "")), "Fred".parse());
}

#[test]
fn parse_day() {
    assert_eq!(Ok(Day::new(2022, 12, 1)), "12/1/2022".parse());
}

#[test]
fn parse_malformed_day() {
    assert!("blay".parse::<Day>().is_err());
}

#[test]
fn parse_leading_zeroes_day() {
    assert_eq!(Ok(Day::new(2053, 7, 8)), "07/08/2053".parse());
}

#[test]
fn parse_empty_name() {
    assert_eq!(Name::new("", ""), Name::parse(""));
    assert_eq!(Name::new("", ""), Name::parse("   \t \n "));
}

#[test]
fn parse_name_extra_whitespace() {
    assert_eq!(Name::new("Fred", "Flintstone"), Name::parse("  Fred \t\n Flintstone  "));
    assert_eq!(Name::new("a b", "c"), Name::parse("a  b\tc"));
}

#[test]
fn parse_name_twice_same_result() {
    assert_eq!(Name::parse("Fred Flintstone"), Name::parse("Fred Flintstone"));
    assert_eq!(Name::parse("x"), Name::parse("x"));
}

#[test]
fn parse_day_twice_same_result() {
    assert_eq!(Day::parse("12/1/2022"), Day::parse("12/1/2022"));
    assert_eq!(Day::parse("blay"), Day::parse("blay"));
}

#[test]
fn parse_day_wrong_token_count() {
    assert_eq!(
        Err(SpeakError::Date(String::from("1/2"))),
        "1/2".parse::<Day>()
    );
    assert_eq!(
        Err(SpeakError::Date(String::from("1/2/3/4"))),
        "1/2/3/4".parse::<Day>()
    );
}

#[test]
fn parse_day_empty_and_blank_tokens() {
    assert!("".parse::<Day>().is_err());
    assert!("1/2/".parse::<Day>().is_err());
    assert!("//".parse::<Day>().is_err());
    assert!(" 1/2/2022".parse::<Day>().is_err());
}

#[test]
fn parse_day_value_bounds() {
    assert_eq!(Ok(Day::new(1, 4294967295, 2)), "4294967295/2/1".parse());
    assert!("4294967296/2/1".parse::<Day>().is_err());
    assert_eq!(Ok(Day::new(0, 0, 0)), "0/00/000".parse());
    assert_eq!(Ok(Day::new(1, 13, 99)), "13/99/1".parse());
}

#[test]
fn parse_day_carries_original_string() {
    assert_eq!(
        Err(SpeakError::Date(String::from("blay"))),
        "blay".parse::<Day>()
    );
}

#[test]
fn error_messages() {
    assert_eq!(
        "Can't format 'blay' as a Date",
        SpeakError::Date(String::from("blay")).message()
    );
    assert_eq!(
        "IO error: not found",
        SpeakError::Io(IoKind::NotFound).message()
    );
    assert_eq!(
        "IO error: permission denied",
        SpeakError::Io(IoKind::PermissionDenied).message()
    );
    assert_eq!("IO error: other", SpeakError::Io(IoKind::Other).message());
}
