use aprs_parser::data_extension::extract_altitude;
use aprs_parser::{AprsError, DataExtension};

#[test]
fn parse_course_speed() {
    assert_eq!(
        DataExtension::from_str("012/345"),
        Ok(DataExtension::CourseSpeed(12, 345))
    );
}

#[test]
fn parse_station_power_and_effective_antenna_height_gain_directivity() {
    assert_eq!(
        DataExtension::from_str("PHG0123"),
        Ok(DataExtension::StationPower(0, 1, 2, 3))
    );
}

#[test]
fn parse_pre_calculated_radio_range() {
    assert_eq!(
        DataExtension::from_str("RNG0050"),
        Ok(DataExtension::RadioRange(50))
    );
}

#[test]
fn parse_signal_strength_and_effective_antenna_height_gain_directivity() {
    assert_eq!(
        DataExtension::from_str("DFS4567"),
        Ok(DataExtension::SignalStrength(4, 5, 6, 7))
    );
}

#[test]
fn parse_invalid_course() {
    assert_eq!(
        DataExtension::from_str("361/010"),
        Err(AprsError::InvalidCourse("361/010".to_owned()))
    );
}

#[test]
fn parse_no_data_extension() {
    assert_eq!(
        DataExtension::from_str("yoyobaa"),
        Err(AprsError::InvalidDataExtension("yoyobaa".to_owned()))
    );
}

#[test]
fn parse_maximum_course() {
    assert_eq!(
        DataExtension::from_str("360/000"),
        Ok(DataExtension::CourseSpeed(360, 0))
    );
}

#[test]
fn extract_altitude_from_comment() {
    let (feet, rest) = extract_altitude(b"322/103/A=003054 !W09! id213D17F2");
    assert_eq!(feet, Some(3054));
    assert_eq!(rest, b"322/103 !W09! id213D17F2".to_vec());
}

#[test]
fn extract_altitude_without_marker() {
    let (feet, rest) = extract_altitude(b"Hello world");
    assert_eq!(feet, None);
    assert_eq!(rest, b"Hello world".to_vec());
}

#[test]
fn extract_altitude_with_bad_digits_leaves_comment_untouched() {
    let (feet, rest) = extract_altitude(b"Hello/A=00BAD0 there");
    assert_eq!(feet, None);
    assert_eq!(rest, b"Hello/A=00BAD0 there".to_vec());
}

#[test]
fn extract_altitude_truncated_token_leaves_comment_untouched() {
    let (feet, rest) = extract_altitude(b"Hello/A=0010");
    assert_eq!(feet, None);
    assert_eq!(rest, b"Hello/A=0010".to_vec());
}
