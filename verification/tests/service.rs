use rust_gps_ntp::calendar::{civil_from_unix, unix_from_civil, CivilTime};
use rust_gps_ntp::config::{device_hostname, nmea_pps_fudge_s, read_sdkconfig_string};
use rust_gps_ntp::gps::{GpsSnapshot, RmcPosition, ZoneSettings};
use rust_gps_ntp::logging::{
    display_boot_test_enabled, level_from_sdkconfig_defaults, parse_level, set_level_from_key,
    LogLevel,
};
use rust_gps_ntp::ntp::clock::{read_clock, ClockAnchor};
use rust_gps_ntp::ntp::NtpServer;
use rust_gps_ntp::pps::PpsEvent;
use rust_gps_ntp::rtc::RtcSnapshot;
use rust_gps_ntp::service::{
    ingest_line, init_ntp_server, LineEffect, Milestones, ServiceState, Sightings,
};

const RMC: &str = "$GPRMC,120000,A,3853.647,N,09011.516,W,0.0,0.0,010626,0.0,E*67";
const GGA: &str = "$GPGGA,123520,4807.038,N,01131.000,E,1,08,1.0,545.4,M,46.9,M,,*45";
const WEST: RmcPosition = RmcPosition { lat_bits: 1, lon_bits: 2, lon_hours: -6 };

fn sightings(now_us: i64) -> Sightings {
    Sightings {
        now_us,
        bytes_seen: 0,
        gps_fix: false,
        gps_utc: None,
        rtc_present: true,
        served: 0,
    }
}

fn silent(elapsed_s: i64) -> Milestones {
    Milestones {
        elapsed_s,
        first_nmea: false,
        first_fix: false,
        seed_rtc: None,
        first_client: false,
        warn_no_nmea: false,
        warn_no_pps: false,
    }
}

#[test]
fn fix_sets_the_server() {
    let zones = ZoneSettings::new(None);
    let mut gps = GpsSnapshot::default();
    let mut server = NtpServer::new(1);
    let effect = ingest_line(RMC, Some(WEST), None, &zones, &mut gps, &mut server, 50);
    assert_eq!(effect, LineEffect { publish: true, lookup: true });
    assert_eq!(server.last_gps_utc_seconds, Some(1_780_315_200));
    assert_eq!(
        server.clock_anchor,
        Some(ClockAnchor { unix_seconds: 1_780_315_200, monotonic_us: 50 })
    );
    assert_eq!(gps.local_time, "06:00:00");
}

#[test]
fn other_lines_leave_the_server_alone() {
    let zones = ZoneSettings::new(None);
    let mut gps = GpsSnapshot::default();
    let mut server = NtpServer::new(1);
    let bits = Some(545.4_f32.to_bits());
    assert_eq!(
        ingest_line(GGA, None, bits, &zones, &mut gps, &mut server, 50),
        LineEffect { publish: true, lookup: false }
    );
    assert_eq!((gps.sats, gps.altitude_bits), (8, bits));
    for line in ["$GPGSV,1*00", "noise", &RMC.replace("*67", "*68")] {
        assert_eq!(
            ingest_line(line, Some(WEST), None, &zones, &mut gps, &mut server, 50),
            LineEffect { publish: false, lookup: false }
        );
    }
    assert!(server.clock_anchor.is_none());
}

#[test]
fn server_starts_as_configured() {
    let config = "CONFIG_GPS_NTP_ACL_CIDR=\"192.168.1.0/24\"\nCONFIG_GPS_NTP_NMEA_PPS_FUDGE_S=\"0\"\n";
    let server = init_ntp_server(config, Some(1_700_000_000), 9);
    assert_eq!(server.nmea_pps_fudge_s, 0);
    assert!(server.acl.allows(0xC0A8_0105));
    assert!(!server.acl.allows(0x7F00_0001));
    assert_eq!(
        server.clock_anchor,
        Some(ClockAnchor { unix_seconds: 1_700_000_000, monotonic_us: 9 })
    );
    let server = init_ntp_server("", None, 9);
    assert_eq!(server.nmea_pps_fudge_s, 1);
    assert!(server.acl.allows(0x7F00_0001));
    assert!(!server.acl.allows(0x0808_0808));
    assert!(server.clock_anchor.is_none());
}

#[test]
fn clock_stands_in_for_gps_once_a_second() {
    let mut state = ServiceState::new(0, None);
    let mut server = NtpServer::new(1);
    let rtc = RtcSnapshot { detected: true, utc_unix_seconds: Some(1_700_000_000) };
    assert_eq!(state.maybe_apply_rtc_fallback(&mut server, true, rtc, 10), None);
    assert_eq!(
        state.maybe_apply_rtc_fallback(&mut server, false, RtcSnapshot::default(), 10),
        None
    );
    assert!(server.clock_anchor.is_none());
    assert_eq!(
        state.maybe_apply_rtc_fallback(&mut server, false, rtc, 10),
        Some(1_700_000_000)
    );
    assert_eq!(
        server.clock_anchor,
        Some(ClockAnchor { unix_seconds: 1_700_000_000, monotonic_us: 10 })
    );
    assert_eq!(state.maybe_apply_rtc_fallback(&mut server, false, rtc, 1_000_009), None);
    assert_eq!(
        state.maybe_apply_rtc_fallback(&mut server, false, rtc, 1_000_010),
        Some(1_700_000_000)
    );
    assert_eq!(server.clock_anchor.unwrap().monotonic_us, 10);
}

#[test]
fn clock_is_set_once_a_minute_while_locked() {
    let mut state = ServiceState::new(0, None);
    let mut server = NtpServer::new(1);
    server.update_gps_utc_seconds(1_700_000_000, 1_000_000);
    assert_eq!(state.maybe_writeback_rtc(&server, true, 1_000_000), None);
    server.observe_pps_pulse(None, 1_000_000, read_clock(1_000_000));
    assert_eq!(state.maybe_writeback_rtc(&server, false, 1_000_000), None);
    assert_eq!(state.maybe_writeback_rtc(&server, true, 1_000_000), Some(1_700_000_001));
    assert_eq!(state.maybe_writeback_rtc(&server, true, 2_000_000), None);
    server.last_pps_monotonic_us = Some(61_000_000);
    assert_eq!(state.maybe_writeback_rtc(&server, true, 60_999_999), None);
    assert_eq!(state.maybe_writeback_rtc(&server, true, 61_000_000), Some(1_700_000_061));
}

#[test]
fn edges_reach_the_server() {
    let mut state = ServiceState::new(0, None);
    let mut server = NtpServer::new(1);
    server.update_gps_utc_seconds(1_700_000_000, 900);
    let first = PpsEvent::First { edge_us: 1_000 };
    assert_eq!(state.apply_pps_event(&mut server, first, read_clock(1_100)), None);
    assert!(state.first_pps_seen && server.pps_locked);
    assert_eq!(state.last_ntp_publish_us, 1_100);
    let next = PpsEvent::Delta { interval_us: 1_000_100, edge_us: 1_001_100 };
    assert_eq!(
        state.apply_pps_event(&mut server, next, read_clock(1_001_200)),
        Some(1_000_100)
    );
    assert_eq!(server.pps_offset_us, 100);
}

#[test]
fn display_is_fed() {
    let mut state = ServiceState::new(0, None);
    assert!(!state.note_served(0, 5));
    assert!(state.note_served(2, 5));
    assert!(!state.note_served(2, 6));
    assert!(!state.publish_due(1_000_004));
    assert!(state.publish_due(1_000_005));
    assert!(!state.storage_refresh_due(false, 7, 100));
    assert!(state.storage_refresh_due(true, 7, 100));
    assert!(!state.storage_refresh_due(true, 106, 100));
    assert!(state.storage_refresh_due(true, 107, 100));
}

#[test]
fn milestones_are_reported_once() {
    let mut state = ServiceState::new(1_000_000, None);
    assert_eq!(state.check_milestones(sightings(10_999_999)), silent(9));
    assert_eq!(
        state.check_milestones(sightings(11_000_000)),
        Milestones { warn_no_nmea: true, ..silent(10) }
    );
    assert_eq!(state.check_milestones(sightings(12_000_000)), silent(11));
    let talking = Sightings { bytes_seen: 4, ..sightings(13_000_000) };
    assert_eq!(state.check_milestones(talking), Milestones { first_nmea: true, ..silent(12) });
    let fixed = Sightings {
        bytes_seen: 4,
        gps_fix: true,
        gps_utc: Some(1_700_000_000),
        served: 1,
        ..sightings(31_000_000)
    };
    assert_eq!(
        state.check_milestones(fixed),
        Milestones {
            first_fix: true,
            seed_rtc: Some(1_700_000_000),
            first_client: true,
            warn_no_pps: true,
            ..silent(30)
        }
    );
    assert_eq!(state.check_milestones(fixed), silent(30));
}

#[test]
fn clock_with_a_time_is_not_seeded() {
    let mut state = ServiceState::new(0, Some(1));
    let fixed = Sightings { gps_fix: true, gps_utc: Some(2), ..sightings(0) };
    let report = state.check_milestones(fixed);
    assert!(report.first_fix && report.seed_rtc.is_none());
}

#[test]
fn configuration_values() {
    let config = "# comment\n CONFIG_A=\"x=y\" \nCONFIG_AB=2\nCONFIG_A=3\n";
    assert_eq!(read_sdkconfig_string(config, "CONFIG_A").as_deref(), Some("x=y"));
    assert_eq!(read_sdkconfig_string(config, "CONFIG_AB").as_deref(), Some("2"));
    assert_eq!(read_sdkconfig_string(config, "CONFIG_B"), None);
    assert_eq!(nmea_pps_fudge_s("CONFIG_GPS_NTP_NMEA_PPS_FUDGE_S=0"), 0);
    assert_eq!(nmea_pps_fudge_s("CONFIG_GPS_NTP_NMEA_PPS_FUDGE_S=2"), 1);
    assert_eq!(nmea_pps_fudge_s(""), 1);
    assert_eq!(device_hostname("CONFIG_LWIP_LOCAL_HOSTNAME=\"clock\"\n"), "clock");
    assert_eq!(device_hostname(""), "espressif");
}

#[test]
fn log_levels_are_read() {
    assert_eq!(parse_level(" NoNe\n"), Some(LogLevel::Off));
    assert_eq!(parse_level("ERROR"), Some(LogLevel::Error));
    assert_eq!(parse_level("warn"), Some(LogLevel::Warn));
    assert_eq!(parse_level("Warning"), Some(LogLevel::Warn));
    assert_eq!(parse_level("info"), Some(LogLevel::Info));
    assert_eq!(parse_level("debug"), Some(LogLevel::Debug));
    assert_eq!(parse_level("trace"), Some(LogLevel::Verbose));
    assert_eq!(parse_level("VERBOSE"), Some(LogLevel::Verbose));
    assert_eq!(parse_level("loud"), None);
}

#[test]
fn log_level_overrides() {
    let config = "# levels\n\nLOG_A = \"debug\"\nLOG_B=info\nbroken line\nLOG_C=error\n";
    assert_eq!(level_from_sdkconfig_defaults(config, "LOG_A").as_deref(), Some("debug"));
    assert_eq!(level_from_sdkconfig_defaults(config, "LOG_C"), None);
    assert_eq!(set_level_from_key(config, "LOG_B", None), Some(LogLevel::Info));
    assert_eq!(set_level_from_key(config, "LOG_B", Some("warn")), Some(LogLevel::Warn));
    assert_eq!(set_level_from_key(config, "LOG_B", Some("loud")), None);
    assert_eq!(set_level_from_key(config, "LOG_X", None), None);
    assert!(display_boot_test_enabled(Some(LogLevel::Debug)));
    assert!(display_boot_test_enabled(Some(LogLevel::Verbose)));
    assert!(!display_boot_test_enabled(Some(LogLevel::Info)));
    assert!(!display_boot_test_enabled(None));
}

#[test]
fn calendar_dates() {
    let leap_day =
        CivilTime { year: 2024, month: 2, day: 29, hour: 23, minute: 59, second: 59 };
    assert_eq!(unix_from_civil(leap_day), Some(1_709_251_199));
    assert_eq!(civil_from_unix(1_709_251_199), Some(leap_day));
    assert_eq!(unix_from_civil(CivilTime { year: 2023, ..leap_day }), None);
    assert_eq!(unix_from_civil(CivilTime { second: 60, ..leap_day }), None);
    let before = CivilTime { year: 1969, month: 12, day: 31, hour: 23, minute: 59, second: 59 };
    assert_eq!(civil_from_unix(-1), Some(before));
    let last = CivilTime {
        year: 262_142,
        month: 12,
        day: 31,
        hour: 23,
        minute: 59,
        second: 59,
    };
    let end = unix_from_civil(last).expect("last second");
    assert_eq!(civil_from_unix(end), Some(last));
    assert_eq!(civil_from_unix(end + 1), None);
    let first =
        CivilTime { year: -262_143, month: 1, day: 1, hour: 0, minute: 0, second: 0 };
    let start = unix_from_civil(first).expect("first second");
    assert_eq!(civil_from_unix(start), Some(first));
    assert_eq!(civil_from_unix(start - 1), None);
    assert_eq!(unix_from_civil(CivilTime { year: 262_143, ..first }), None);
    assert_eq!(unix_from_civil(CivilTime { year: -262_144, ..last }), None);
}
