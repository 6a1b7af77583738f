use rust_gps_ntp::gps::{
    classify, gga_altitude_field, local_at_offset, local_from_utc_unix, nmea_checksum_valid,
    offset_hours, parse_gga, parse_rmc, rmc_fields, set_runtime_timezone,
    tz_offset_hours_at_unix, utc_from_fields, GpsSnapshot, LineBuffer, RmcPosition, SentenceKind,
    ZoneSettings,
};

fn degrees(field: &(String, String)) -> Option<f32> {
    let raw: f32 = field.0.parse().ok()?;
    let whole = (raw / 100.0).floor();
    let minutes = raw - whole * 100.0;
    let decimal = whole + minutes / 60.0;
    if field.1 == "S" || field.1 == "W" {
        Some(-decimal)
    } else {
        Some(decimal)
    }
}

fn position(sentence: &str) -> Option<RmcPosition> {
    let rmc = rmc_fields(sentence)?;
    let (lat, lon) = (degrees(&rmc.lat)?, degrees(&rmc.lon)?);
    Some(RmcPosition {
        lat_bits: lat.to_bits(),
        lon_bits: lon.to_bits(),
        lon_hours: (lon / 15.0).round() as i8,
    })
}

fn take_rmc(sentence: &str, zones: &ZoneSettings, gps: &mut GpsSnapshot) -> Option<()> {
    parse_rmc(sentence, position(sentence), zones, gps)
}

fn take_gga(sentence: &str, gps: &mut GpsSnapshot) -> Option<()> {
    let altitude = gga_altitude_field(sentence)
        .and_then(|field| field.parse::<f32>().ok())
        .map(f32::to_bits);
    parse_gga(sentence, altitude, gps)
}

fn chicago() -> ZoneSettings {
    let mut zones = ZoneSettings::new(None);
    assert!(set_runtime_timezone(&mut zones, "America/Chicago"));
    zones
}

fn chars(s: &str) -> Vec<char> {
    s.chars().collect()
}

#[test]
fn nmea_checksum_rejects_missing_dollar_prefix() {
    assert!(!nmea_checksum_valid("GPRMC,123519,A*00"));
}

#[test]
fn nmea_checksum_rejects_truncated_checksum_field() {
    assert!(!nmea_checksum_valid("$GPRMC,123519,A*0"));
}

#[test]
fn parse_rmc_falls_back_to_raw_date_time_on_invalid_calendar() {
    let mut gps = GpsSnapshot::default();
    let rmc = "$GPRMC,123519,A,4807.038,N,01131.000,E,022.4,084.4,320266,003.1,W*66";
    assert_eq!(take_rmc(rmc, &ZoneSettings::new(None), &mut gps), Some(()));
    assert_eq!(gps.local_date, "2066-02-32");
    assert_eq!(gps.local_time, "12:35:19");
    assert_eq!(gps.tz_offset_hours, 0);
    assert!(gps.utc_unix_seconds.is_none());
}

#[test]
fn parse_gga_rejects_malformed_satellite_field() {
    let mut gps = GpsSnapshot::default();
    let gga = "$GPGGA,123520,4807.038,N,01131.000,E,1,08*7D";
    assert_eq!(take_gga(gga, &mut gps), None);
}

#[test]
fn nmea_checksum_rejects_missing_star() {
    assert!(!nmea_checksum_valid("$GPRMC,123519,A"));
}

#[test]
fn nmea_checksum_rejects_non_hex_suffix() {
    assert!(!nmea_checksum_valid("$GPRMC,123519,A*GH"));
}

#[test]
fn set_runtime_timezone_rejects_invalid_name() {
    let mut zones = ZoneSettings::new(None);
    assert!(!set_runtime_timezone(&mut zones, "Not/A/Timezone"));
    assert!(zones.runtime.is_none());
}

#[test]
fn parse_rmc_rejects_short_sentence() {
    let mut gps = GpsSnapshot::default();
    let rmc = "$GPRMC,123519,A,4807.038,N,01131.000,E,022.4,084.4*32";
    assert_eq!(take_rmc(rmc, &ZoneSettings::new(None), &mut gps), None);
}

#[test]
fn parse_gga_rejects_invalid_checksum() {
    let mut gps = GpsSnapshot::default();
    let gga = "$GPGGA,123520,4807.038,N,01131.000,E,1,08,1.0,545.4,M,46.9,M,,*00";
    assert_eq!(take_gga(gga, &mut gps), None);
}

#[test]
fn nmea_checksum_valid_accepts_known_sentence() {
    let rmc = "$GPRMC,123519,A,4807.038,N,01131.000,E,022.4,084.4,230394,003.1,W*6A";
    assert!(nmea_checksum_valid(rmc));
}

#[test]
fn nmea_checksum_invalid_rejects_parse() {
    let mut gps = GpsSnapshot::default();
    let bad = "$GPRMC,123519,A,4807.038,N,01131.000,E,022.4,084.4,230394,003.1,W*00";
    assert!(!nmea_checksum_valid(bad));
    assert_eq!(take_rmc(bad, &ZoneSettings::new(None), &mut gps), None);
}

#[test]
fn parse_rmc_populates_local_fields_and_coords() {
    let mut gps = GpsSnapshot::default();
    let rmc = "$GPRMC,123519,A,4807.038,N,01131.000,E,022.4,084.4,230394,003.1,W*6A";
    assert_eq!(take_rmc(rmc, &ZoneSettings::new(None), &mut gps), Some(()));
    assert_eq!(gps.local_date, "2094-03-23");
    assert_eq!(gps.local_time, "13:35:19");
    assert_eq!(gps.tz_offset_hours, 1);
    assert!(gps.fix);
    assert!((f32::from_bits(gps.lat_bits) - 48.1173).abs() < 0.0001);
    assert!((f32::from_bits(gps.lon_bits) - 11.516667).abs() < 0.0001);
}

#[test]
fn parse_rmc_marks_invalid_fix_status() {
    let mut gps = GpsSnapshot::default();
    let rmc = "$GPRMC,225446,V,4916.45,N,12311.12,W,000.5,054.7,191194,020.3,E*7F";
    assert_eq!(take_rmc(rmc, &ZoneSettings::new(None), &mut gps), Some(()));
    assert!(!gps.fix);
    assert!(f32::from_bits(gps.lon_bits) < 0.0);
}

#[test]
fn parse_gga_updates_satellite_count() {
    let mut gps = GpsSnapshot::default();
    let gga = "$GPGGA,123520,4807.038,N,01131.000,E,1,08,1.0,545.4,M,46.9,M,,*45";
    assert_eq!(take_gga(gga, &mut gps), Some(()));
    assert_eq!(gps.sats, 8);
    assert_eq!(gps.altitude_bits.map(f32::from_bits), Some(545.4));
}

#[test]
fn runtime_timezone_override_applies_dst_rules_for_summer() {
    let mut gps = GpsSnapshot::default();
    let rmc = "$GPRMC,120000,A,3853.647,N,09011.516,W,0.0,0.0,010626,0.0,E*67";
    assert_eq!(take_rmc(rmc, &chicago(), &mut gps), Some(()));
    assert_eq!(gps.local_date, "2026-06-01");
    assert_eq!(gps.local_time, "07:00:00");
    assert_eq!(gps.tz_offset_hours, -5);
}

#[test]
fn local_from_utc_unix_uses_runtime_timezone() {
    let zones = chicago();
    let (date, time) = local_from_utc_unix(&zones, 1_780_336_800).expect("local time");
    assert_eq!(date, "2026-06-01");
    assert_eq!(time, "13:00:00");
    assert_eq!(tz_offset_hours_at_unix(&zones, 1_780_336_800), -5);
}

#[test]
fn runtime_timezone_override_applies_dst_rules_for_winter() {
    let mut gps = GpsSnapshot::default();
    let rmc = "$GPRMC,120000,A,3853.647,N,09011.516,W,0.0,0.0,010126,0.0,E*60";
    assert_eq!(take_rmc(rmc, &chicago(), &mut gps), Some(()));
    assert_eq!(gps.local_date, "2026-01-01");
    assert_eq!(gps.local_time, "06:00:00");
    assert_eq!(gps.tz_offset_hours, -6);
}

#[test]
fn fallback_zone_counts_until_one_is_set() {
    let mut zones = ZoneSettings::new(Some("Asia/Kolkata".to_owned()));
    assert_eq!(tz_offset_hours_at_unix(&zones, 1_700_000_000), 5);
    assert!(set_runtime_timezone(&mut zones, "Asia/Tokyo"));
    assert_eq!(tz_offset_hours_at_unix(&zones, 1_700_000_000), 9);
}

#[test]
fn no_zone_means_no_offset_and_no_local_time() {
    let zones = ZoneSettings::new(Some("Nowhere".to_owned()));
    assert_eq!(tz_offset_hours_at_unix(&zones, 1_700_000_000), 0);
    assert!(local_from_utc_unix(&zones, 1_700_000_000).is_none());
}

#[test]
fn zone_overrides_longitude() {
    let rmc = "$GPRMC,120000,A,3853.647,N,09011.516,W,0.0,0.0,010626,0.0,E*67";
    let mut with_zone = GpsSnapshot::default();
    let east = RmcPosition { lat_bits: 0, lon_bits: 0, lon_hours: 9 };
    assert_eq!(parse_rmc(rmc, Some(east), &chicago(), &mut with_zone), Some(()));
    assert_eq!(with_zone.tz_offset_hours, -5);
    let mut without = GpsSnapshot::default();
    assert_eq!(parse_rmc(rmc, Some(east), &ZoneSettings::new(None), &mut without), Some(()));
    assert_eq!(without.tz_offset_hours, 9);
    assert_eq!(without.local_time, "21:00:00");
}

#[test]
fn sentence_without_position_is_refused() {
    let rmc = "$GPRMC,120000,A,3853.647,N,09011.516,W,0.0,0.0,010626,0.0,E*67";
    let mut gps = GpsSnapshot::default();
    assert_eq!(parse_rmc(rmc, None, &ZoneSettings::new(None), &mut gps), None);
    assert_eq!(gps.local_date, "");
}

#[test]
fn utc_seconds_of_fields() {
    assert_eq!(utc_from_fields(&chars("010626"), &chars("180000")), Some(1_780_336_800));
    assert_eq!(utc_from_fields(&chars("300226"), &chars("180000")), None);
    assert_eq!(utc_from_fields(&chars("010626"), &chars("240000")), None);
    assert_eq!(utc_from_fields(&chars("0x0626"), &chars("180000")), None);
}

#[test]
fn checksum_catches_one_changed_byte() {
    let good = "$GPGGA,123520,4807.038,N,01131.000,E,1,08,1.0,545.4,M,46.9,M,,*45";
    assert!(nmea_checksum_valid(good));
    assert!(!nmea_checksum_valid(&good.replace("545.4", "545.5")));
}

#[test]
fn checksum_field_may_be_followed_by_anything() {
    assert!(nmea_checksum_valid("$A*41"));
    assert!(nmea_checksum_valid("$A*41 tail"));
    assert!(!nmea_checksum_valid("$A*4\u{e9}"));
    assert!(nmea_checksum_valid("$AD*05"));
    assert!(!nmea_checksum_valid("$AD*+5"));
    assert!(!nmea_checksum_valid(""));
}

#[test]
fn lines_are_cut_at_newlines_wherever_chunks_end() {
    let mut one = LineBuffer::new();
    assert!(one.push_bytes(b"$A\r\n  $B"));
    assert_eq!(one.next_line().as_deref(), Some("$A"));
    assert_eq!(one.next_line(), None);
    assert!(!one.push_bytes(&[0x24, 0xff, 0x0a]));
    assert!(one.push_bytes("\u{e9}\n".as_bytes()));
    assert_eq!(one.next_line().as_deref(), Some("$B\u{e9}"));
    assert_eq!(one.next_line(), None);
    assert_eq!(one.bytes_seen, 14);
}

#[test]
fn lines_are_told_apart() {
    assert_eq!(classify("$GNRMC,1"), SentenceKind::Rmc);
    assert_eq!(classify("$GPRMC"), SentenceKind::Rmc);
    assert_eq!(classify("$GNGGA,1"), SentenceKind::Gga);
    assert_eq!(classify("$GPGGA,1"), SentenceKind::Gga);
    assert_eq!(classify("$GPGSV,1"), SentenceKind::Other);
    assert_eq!(classify("GPRMC"), SentenceKind::Other);
}

#[test]
fn offsets_lose_their_minutes() {
    assert_eq!(offset_hours(19_800), 5);
    assert_eq!(offset_hours(-12_600), -3);
    assert_eq!(offset_hours(0), 0);
}

#[test]
fn local_time_at_an_offset() {
    let (date, time) = local_at_offset(1_704_067_199, 1);
    assert_eq!(date, "2024-01-01");
    assert_eq!(time, "00:00:00");
}
