use aprs_parser::{
    AprsCst, AprsData, AprsError, AprsMessage, Callsign, Timestamp, UNITS_PER_DEGREE,
};

fn degrees(units: i64) -> f64 {
    units as f64 / UNITS_PER_DEGREE as f64
}

fn assert_close(actual: f64, expected: f64) {
    assert!(
        (actual - expected).abs() < 1e-6,
        "expected {expected}, got {actual}"
    );
}

#[test]
fn parse_status() {
    let result = AprsMessage::from_str(
        r"Cordoba>APRS,TCPIP*,qAC,GLIDERN3:>194847h v0.2.5.ARM CPU:0.4 RAM:755.4/970.8MB NTP:6.7ms/-0.1ppm +45.5C 0/0Acfts[1h] RF:+48+18.3ppm/+3.45dB/+0.4dB@10km[71]/+0.4dB@10km[1/1]",
    )
    .unwrap();
    assert_eq!(result.from, Callsign::new("Cordoba", None));
    assert_eq!(result.to, Callsign::new("APRS", None));
    assert_eq!(
        result.via,
        vec![
            Callsign::new("TCPIP*", None),
            Callsign::new("qAC", None),
            Callsign::new("GLIDERN3", None),
        ]
    );

    match result.data {
        AprsData::Status(status) => {
            assert_eq!(status.timestamp, Some(Timestamp::HHMMSS(19, 48, 47)));
            assert_eq!(
                status.comment,
                " v0.2.5.ARM CPU:0.4 RAM:755.4/970.8MB NTP:6.7ms/-0.1ppm +45.5C 0/0Acfts[1h] RF:+48+18.3ppm/+3.45dB/+0.4dB@10km[71]/+0.4dB@10km[1/1]"
            );
        }
        _ => panic!("Unexpected data type"),
    }
}

#[test]
fn parse_position_report_message() {
    let result = AprsMessage::from_str(
        r"ICA3D17F2>APRS,qAS,dl4mea:/074849h4821.61N\01224.49E^322/103/A=003054 !W09! id213D17F2 -039fpm +0.0rot 2.5dB 3e -0.0kHz gps1x1",
    )
    .unwrap();
    assert_eq!(result.from, Callsign::new("ICA3D17F2", None));
    assert_eq!(result.to, Callsign::new("APRS", None));
    assert_eq!(
        result.via,
        vec![Callsign::new("qAS", None), Callsign::new("dl4mea", None)]
    );

    match result.data {
        AprsData::Position(position) => {
            assert_eq!(position.timestamp, Some(Timestamp::HHMMSS(7, 48, 49)));
            assert_close(degrees(position.latitude.0), 48.360166);
            assert_close(degrees(position.longitude.0), 12.408166);
            assert_eq!(position.symbol_table, '\\');
            assert_eq!(position.symbol_code, '^');
            assert_eq!(position.cst, AprsCst::Uncompressed);
            assert_eq!(
                position.comment,
                b"322/103/A=003054 !W09! id213D17F2 -039fpm +0.0rot 2.5dB 3e -0.0kHz gps1x1"
                    .to_vec()
            );
        }
        _ => panic!("Unexpected data type"),
    }
}

#[test]
fn parse_unknown_body() {
    let result = AprsMessage::from_str("A>B:xyz").unwrap();
    assert_eq!(result.data, AprsData::Unknown);
}

#[test]
fn parse_without_via_path() {
    let result = AprsMessage::from_str("A>B:>hello").unwrap();
    assert_eq!(result.from, Callsign::new("A", None));
    assert_eq!(result.to, Callsign::new("B", None));
    assert_eq!(result.via, vec![]);
}

#[test]
fn parse_missing_colon() {
    assert_eq!(
        AprsMessage::from_str("A>B,C"),
        Err(AprsError::InvalidMessage("A>B,C".to_owned()))
    );
}

#[test]
fn parse_missing_greater_than() {
    assert_eq!(
        AprsMessage::from_str("AB,C:>hello"),
        Err(AprsError::InvalidMessage("AB,C:>hello".to_owned()))
    );
}

#[test]
fn parse_empty_body() {
    assert_eq!(
        AprsMessage::from_str("A>B,C:"),
        Err(AprsError::InvalidMessage("A>B,C:".to_owned()))
    );
}

#[test]
fn parse_empty_from_callsign() {
    assert_eq!(
        AprsMessage::from_str(">B:xyz"),
        Err(AprsError::InvalidCallsign("".to_owned()))
    );
}

#[test]
fn parse_callsign_with_ssid() {
    let result = AprsMessage::from_str("DL1ABC-5>APRS,WIDE1-1:xyz").unwrap();
    assert_eq!(result.from, Callsign::new("DL1ABC", Some(5)));
    assert_eq!(result.via, vec![Callsign::new("WIDE1", Some(1))]);
}

#[test]
fn parse_duplicate_via_entries_kept_in_order() {
    let result = AprsMessage::from_str("A>B,X,X,Y:xyz").unwrap();
    assert_eq!(
        result.via,
        vec![
            Callsign::new("X", None),
            Callsign::new("X", None),
            Callsign::new("Y", None),
        ]
    );
}
