use aprs_parser::{
    AprsCompressedCs, AprsCompressionType, AprsCst, AprsPosition, GpsFix, NmeaSource, Origin,
    Timestamp, UNITS_PER_DEGREE,
};

fn degrees(units: i64) -> f64 {
    units as f64 / UNITS_PER_DEGREE as f64
}

fn assert_close(actual: f64, expected: f64) {
    assert!(
        (actual - expected).abs() < 1e-9,
        "expected {expected}, got {actual}"
    );
}

#[test]
fn parse_compressed_without_timestamp_or_messaging() {
    let result = AprsPosition::try_from(&b"!/ABCD#$%^- >C"[..]).unwrap();

    assert_eq!(result.timestamp, None);
    assert!(!result.messaging_supported);
    assert_close(degrees(result.latitude.0), 25.97004667573229);
    assert_close(degrees(result.longitude.0), -171.95429033460567);
    assert_eq!(result.symbol_table, '/');
    assert_eq!(result.symbol_code, '-');
    assert_eq!(result.comment, []);
    assert_eq!(result.cst, AprsCst::CompressedNone);
}

#[test]
fn parse_compressed_with_comment() {
    let result = AprsPosition::try_from(&b"!/ABCD#$%^-X>DHello/A=001000"[..]).unwrap();

    assert_eq!(result.timestamp, None);
    assert_close(degrees(result.latitude.0), 25.97004667573229);
    assert_close(degrees(result.longitude.0), -171.95429033460567);
    assert_eq!(result.symbol_table, '/');
    assert_eq!(result.symbol_code, '-');
    assert_eq!(result.comment, b"Hello/A=001000");
    match result.cst {
        AprsCst::CompressedSome { cs, t } => {
            match cs {
                AprsCompressedCs::CourseSpeed(cs) => {
                    assert_eq!(cs.course, 220);
                    let speed = 1.08f64.powi(cs.speed_code as i32) - 1.0;
                    assert_close(speed, 8.317274897290226);
                }
                other => panic!("unexpected cs {other:?}"),
            }
            assert_eq!(
                t,
                AprsCompressionType {
                    gps_fix: GpsFix::Current,
                    nmea_source: NmeaSource::Other,
                    origin: Origin::Tbd,
                }
            );
        }
        other => panic!("unexpected cst {other:?}"),
    }
}

#[test]
fn parse_compressed_with_timestamp_without_messaging() {
    let result = AprsPosition::try_from(&br"/074849h\ABCD#$%^^{?C322/103/A=003054"[..]).unwrap();

    assert_eq!(result.timestamp, Some(Timestamp::HHMMSS(7, 48, 49)));
    assert!(!result.messaging_supported);
    assert_close(degrees(result.latitude.0), 25.97004667573229);
    assert_close(degrees(result.longitude.0), -171.95429033460567);
    assert_eq!(result.symbol_table, '\\');
    assert_eq!(result.symbol_code, '^');
    assert_eq!(result.comment, b"322/103/A=003054");
    match result.cst {
        AprsCst::CompressedSome { cs, t } => {
            match cs {
                AprsCompressedCs::RadioRange(r) => {
                    let miles = 2.0 * 1.08f64.powi(r.range_code as i32);
                    assert_close(miles, 20.12531377814689);
                }
                other => panic!("unexpected cs {other:?}"),
            }
            assert_eq!(
                t,
                AprsCompressionType {
                    gps_fix: GpsFix::Current,
                    nmea_source: NmeaSource::Other,
                    origin: Origin::Software,
                }
            );
        }
        other => panic!("unexpected cst {other:?}"),
    }
}

#[test]
fn parse_compressed_without_timestamp_with_messaging() {
    let result = AprsPosition::try_from(&b"=/ABCD#$%^-S]1"[..]).unwrap();

    assert_eq!(result.timestamp, None);
    assert!(result.messaging_supported);
    assert_close(degrees(result.latitude.0), 25.97004667573229);
    assert_close(degrees(result.longitude.0), -171.95429033460567);
    assert_eq!(result.symbol_table, '/');
    assert_eq!(result.symbol_code, '-');
    assert_eq!(result.comment, []);
    match result.cst {
        AprsCst::CompressedSome { cs, t } => {
            match cs {
                AprsCompressedCs::Altitude(a) => {
                    let feet = 1.002f64.powi(a.code() as i32);
                    assert_close(feet, 10004.520050700292);
                }
                other => panic!("unexpected cs {other:?}"),
            }
            assert_eq!(
                t,
                AprsCompressionType {
                    gps_fix: GpsFix::Old,
                    nmea_source: NmeaSource::Gga,
                    origin: Origin::Compressed,
                }
            );
        }
        other => panic!("unexpected cst {other:?}"),
    }
}

#[test]
fn parse_compressed_with_timestamp_and_messaging() {
    let result = AprsPosition::try_from(&br"@074849h\ABCD#$%^^ >C322/103/A=003054"[..]).unwrap();

    assert_eq!(result.timestamp, Some(Timestamp::HHMMSS(7, 48, 49)));
    assert!(result.messaging_supported);
    assert_close(degrees(result.latitude.0), 25.97004667573229);
    assert_close(degrees(result.longitude.0), -171.95429033460567);
    assert_eq!(result.symbol_table, '\\');
    assert_eq!(result.symbol_code, '^');
    assert_eq!(result.comment, b"322/103/A=003054");
    assert_eq!(result.cst, AprsCst::CompressedNone);
}

#[test]
fn parse_without_timestamp_or_messaging() {
    let result = AprsPosition::try_from(&b"!4903.50N/07201.75W-"[..]).unwrap();
    assert_eq!(result.timestamp, None);
    assert!(!result.messaging_supported);
    assert_close(degrees(result.latitude.0), 49.05833333333333);
    assert_close(degrees(result.longitude.0), -72.02916666666667);
    assert_eq!(result.symbol_table, '/');
    assert_eq!(result.symbol_code, '-');
    assert_eq!(result.comment, []);
    assert_eq!(result.cst, AprsCst::Uncompressed);
}

#[test]
fn parse_with_comment() {
    let result = AprsPosition::try_from(&b"!4903.50N/07201.75W-Hello/A=001000"[..]).unwrap();
    assert_eq!(result.timestamp, None);
    assert_close(degrees(result.latitude.0), 49.05833333333333);
    assert_close(degrees(result.longitude.0), -72.02916666666667);
    assert_eq!(result.symbol_table, '/');
    assert_eq!(result.symbol_code, '-');
    assert_eq!(result.comment, b"Hello/A=001000");
    assert_eq!(result.cst, AprsCst::Uncompressed);
}

#[test]
fn parse_with_timestamp_without_messaging() {
    let result = AprsPosition::try_from(&br"/074849h4821.61N\01224.49E^322/103/A=003054"[..]).unwrap();
    assert_eq!(result.timestamp, Some(Timestamp::HHMMSS(7, 48, 49)));
    assert!(!result.messaging_supported);
    assert_close(degrees(result.latitude.0), 48.36016666666667);
    assert_close(degrees(result.longitude.0), 12.408166666666666);
    assert_eq!(result.symbol_table, '\\');
    assert_eq!(result.symbol_code, '^');
    assert_eq!(result.comment, b"322/103/A=003054");
    assert_eq!(result.cst, AprsCst::Uncompressed);
}

#[test]
fn parse_without_timestamp_with_messaging() {
    let result = AprsPosition::try_from(&b"=4903.50N/07201.75W-"[..]).unwrap();
    assert_eq!(result.timestamp, None);
    assert!(result.messaging_supported);
    assert_close(degrees(result.latitude.0), 49.05833333333333);
    assert_close(degrees(result.longitude.0), -72.02916666666667);
    assert_eq!(result.symbol_table, '/');
    assert_eq!(result.symbol_code, '-');
    assert_eq!(result.comment, []);
    assert_eq!(result.cst, AprsCst::Uncompressed);
}

#[test]
fn parse_with_timestamp_and_messaging() {
    let result = AprsPosition::try_from(&br"@074849h4821.61N\01224.49E^322/103/A=003054"[..]).unwrap();
    assert_eq!(result.timestamp, Some(Timestamp::HHMMSS(7, 48, 49)));
    assert!(result.messaging_supported);
    assert_close(degrees(result.latitude.0), 48.36016666666667);
    assert_close(degrees(result.longitude.0), 12.408166666666666);
    assert_eq!(result.symbol_table, '\\');
    assert_eq!(result.symbol_code, '^');
    assert_eq!(result.comment, b"322/103/A=003054");
    assert_eq!(result.cst, AprsCst::Uncompressed);
}

#[test]
fn parse_and_reencode_positions() {
    let positions = vec![
        &b"!/ABCD#$%^- sT"[..],
        &b"!/ABCD#$%^-A>CHello/A=001000"[..],
        &b"/074849h/ABCD#$%^-{>C322/103/A=001000"[..],
        &b"=/ABCD#$%^-2>1"[..],
        &b"@074849h/ABCD#$%^- sT"[..],
        &b"!4903.50N/07201.75W-"[..],
        &b"!4903.50N/07201.75W-Hello/A=001000"[..],
        &br"/074849h4821.61N\01224.49E^322/103/A=003054"[..],
        &b"=4903.50N/07201.75W-"[..],
        &br"@074849h4821.61N\01224.49E^322/103/A=003054"[..],
    ];

    for p in positions {
        let pos = AprsPosition::try_from(p).unwrap();
        let mut buf: Vec<u8> = vec![];
        pos.encode(&mut buf);

        assert_eq!(
            p,
            buf,
            "Expected '{}', got '{}'",
            String::from_utf8_lossy(p),
            String::from_utf8_lossy(&buf)
        );
    }
}
