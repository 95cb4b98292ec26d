use aprs_parser::{AprsError, AprsPosition, Callsign, Latitude, Longitude, Timestamp};

#[test]
fn parse_timestamp_hour_min_sec() {
    assert_eq!(
        Timestamp::try_from(b"074849h"),
        Ok(Timestamp::HHMMSS(7, 48, 49))
    );
}

#[test]
fn parse_timestamp_day_hour_min() {
    assert_eq!(
        Timestamp::try_from(b"312359z"),
        Ok(Timestamp::DDHHMM(31, 23, 59))
    );
}

#[test]
fn parse_timestamp_local() {
    assert_eq!(
        Timestamp::try_from(b"312359/"),
        Ok(Timestamp::DDHHMMLocal(31, 23, 59))
    );
}

#[test]
fn parse_timestamp_bad_tag() {
    assert_eq!(
        Timestamp::try_from(b"123456x"),
        Err(AprsError::InvalidTimestamp(b"123456x".to_vec()))
    );
}

#[test]
fn parse_timestamp_out_of_range() {
    assert_eq!(
        Timestamp::try_from(b"256060h"),
        Err(AprsError::InvalidTimestamp(b"256060h".to_vec()))
    );
}

#[test]
fn timestamp_reencodes_with_original_tag() {
    for input in [&b"074849h"[..], &b"312359z"[..], &b"312359/"[..]] {
        let ts = Timestamp::try_from(input).unwrap();
        let mut buf: Vec<u8> = Vec::new();
        ts.encode(&mut buf);
        assert_eq!(buf, input.to_vec());
    }
}

#[test]
fn base91_latitude_round_trip() {
    for input in [&b"ABCD"[..], &b"!!!!"[..], &b"{{{{"[..], &b"#$%^"[..]] {
        let lat = Latitude::parse_compressed(input).unwrap();
        let mut buf: Vec<u8> = Vec::new();
        lat.encode_compressed(&mut buf);
        assert_eq!(buf, input.to_vec());
    }
}

#[test]
fn base91_longitude_round_trip() {
    for input in [&b"ABCD"[..], &b"!!!!"[..], &b"{{{{"[..], &b"#$%^"[..]] {
        let lon = Longitude::parse_compressed(input).unwrap();
        let mut buf: Vec<u8> = Vec::new();
        lon.encode_compressed(&mut buf);
        assert_eq!(buf, input.to_vec());
    }
}

#[test]
fn base91_rejects_byte_out_of_range() {
    assert_eq!(
        Latitude::parse_compressed(b"AB D"),
        Err(AprsError::InvalidPosition(b"AB D".to_vec()))
    );
}

#[test]
fn uncompressed_latitude_exact_value() {
    // 49 degrees 3.50 minutes = 49 + 3.5/60 degrees, exact in fixed point.
    let lat = Latitude::parse_uncompressed(b"4903.50N").unwrap();
    assert_eq!(lat.0 * 6000, (49 * 6000 + 350) as i64 * 1_142_778_000);
}

#[test]
fn uncompressed_longitude_west_is_negative() {
    let lon = Longitude::parse_uncompressed(b"07201.75W").unwrap();
    assert!(lon.0 < 0);
}

#[test]
fn position_rejects_bad_sigil() {
    assert_eq!(
        AprsPosition::try_from(&b"X4903.50N/07201.75W-"[..]),
        Err(AprsError::InvalidPosition(b"X4903.50N/07201.75W-".to_vec()))
    );
}

#[test]
fn position_rejects_short_input() {
    assert_eq!(
        AprsPosition::try_from(&b"!4903.50N"[..]),
        Err(AprsError::InvalidPosition(b"4903.50N".to_vec()))
    );
}

#[test]
fn position_propagates_bad_timestamp() {
    assert_eq!(
        AprsPosition::try_from(&b"/0748x9h4903.50N/07201.75W-"[..]),
        Err(AprsError::InvalidTimestamp(b"0748x9h".to_vec()))
    );
}

#[test]
fn compressed_space_escape_ignores_tail_bytes() {
    // The first cs byte being a space yields the absent marker whatever
    // the second byte and the compression-type byte hold.
    for tail in [&b" >C"[..], &b" sT"[..], &b" \x7f!"[..], &b" AB"[..]] {
        let mut packet = b"!/ABCD#$%^-".to_vec();
        packet.extend_from_slice(tail);
        let result = AprsPosition::try_from(packet.as_slice()).unwrap();
        assert_eq!(result.cst, aprs_parser::AprsCst::CompressedNone);
    }
}

#[test]
fn encode_normalizes_overflowing_minutes() {
    // A minute field of 60 or more parses, but re-encoding carries the
    // overflow into the degrees; such inputs do not round-trip.
    let pos = AprsPosition::try_from(&b"!4963.50N/07201.75W-"[..]).unwrap();
    let mut buf: Vec<u8> = Vec::new();
    pos.encode(&mut buf);
    assert_eq!(buf, b"!5003.50N/07201.75W-".to_vec());
}

#[test]
fn encode_normalizes_absent_marker() {
    // The two bytes after a space cs byte are not interpreted, and
    // re-encoding emits the canonical ` sT` marker in their place.
    let pos = AprsPosition::try_from(&b"!/ABCD#$%^- >C"[..]).unwrap();
    let mut buf: Vec<u8> = Vec::new();
    pos.encode(&mut buf);
    assert_eq!(buf, b"!/ABCD#$%^- sT".to_vec());
}

#[test]
fn parse_empty_position_input() {
    assert_eq!(
        AprsPosition::try_from(&b""[..]),
        Err(AprsError::InvalidPosition(Vec::new()))
    );
}

#[test]
fn callsign_without_dash() {
    let c = Callsign::from_str("ICA3D17F2").unwrap();
    assert_eq!(c, Callsign::new("ICA3D17F2", None));
}

#[test]
fn callsign_with_numeric_suffix() {
    let c = Callsign::from_str("DL1ABC-15").unwrap();
    assert_eq!(c, Callsign::new("DL1ABC", Some(15)));
}

#[test]
fn callsign_with_non_numeric_suffix() {
    let c = Callsign::from_str("WIDE1-A").unwrap();
    assert_eq!(c, Callsign::new("WIDE1-A", None));
}

#[test]
fn callsign_keeps_digipeated_marker() {
    let c = Callsign::from_str("TCPIP*").unwrap();
    assert_eq!(c, Callsign::new("TCPIP*", None));
}

#[test]
fn callsign_empty_is_rejected() {
    assert_eq!(
        Callsign::from_str(""),
        Err(AprsError::InvalidCallsign("".to_owned()))
    );
}

#[test]
fn callsign_splits_on_last_dash() {
    let c = Callsign::from_str("A-B-7").unwrap();
    assert_eq!(c, Callsign::new("A-B", Some(7)));
}
