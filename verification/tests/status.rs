use aprs_parser::{AprsStatus, Timestamp};

#[test]
fn parse_without_timestamp_or_comment() {
    let result = AprsStatus::from_str("").unwrap();
    assert_eq!(result.timestamp, None);
    assert_eq!(result.comment, "");
}

#[test]
fn parse_with_timestamp_without_comment() {
    let result = AprsStatus::from_str("312359z").unwrap();
    assert_eq!(result.timestamp, Some(Timestamp::DDHHMM(31, 23, 59)));
    assert_eq!(result.comment, "");
}

#[test]
fn parse_without_timestamp_with_comment() {
    let result = AprsStatus::from_str("Hi there!").unwrap();
    assert_eq!(result.timestamp, None);
    assert_eq!(result.comment, "Hi there!");
}

#[test]
fn parse_with_timestamp_and_comment() {
    let result = AprsStatus::from_str("235959hHi there!").unwrap();
    assert_eq!(result.timestamp, Some(Timestamp::HHMMSS(23, 59, 59)));
    assert_eq!(result.comment, "Hi there!");
}

#[test]
fn encode_with_timestamp_and_comment() {
    let status = AprsStatus::from_str("235959hHi there!").unwrap();
    let mut buf: Vec<u8> = Vec::new();
    status.encode(&mut buf);
    assert_eq!(buf, b">235959hHi there!".to_vec());
}

#[test]
fn malformed_timestamp_becomes_comment() {
    let result = AprsStatus::from_str("1234567 and more").unwrap();
    assert_eq!(result.timestamp, None);
    assert_eq!(result.comment, "1234567 and more");
}
