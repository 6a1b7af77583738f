use rust_gps_ntp::ntp::clock::{
    corrected_elapsed, ntp_timestamp_at, read_clock, unix_seconds_at, ClockAnchor,
};
use rust_gps_ntp::ntp::packet::{build_kod_response, build_response, DisciplineParams};
use rust_gps_ntp::ntp::protection::RateLimiter;
use rust_gps_ntp::ntp::NtpServer;
use rust_gps_ntp::pins::PinRegistry;
use rust_gps_ntp::pps::{PpsEvent, PpsPollState};

const ANCHOR: ClockAnchor = ClockAnchor { unix_seconds: 1_700_000_000, monotonic_us: 5_000_000 };

#[test]
fn anchored_clock_never_runs_backwards() {
    for freq_ppb in [-500_000, -1, 0, 1, 500_000] {
        let mut last = 0;
        for now_us in (0..20_000_000).step_by(333_333) {
            let ts = ntp_timestamp_at(ANCHOR, freq_ppb, now_us);
            assert!(ts >= last);
            last = ts;
        }
    }
}

#[test]
fn clock_stands_still_before_its_anchor() {
    assert_eq!(corrected_elapsed(ANCHOR, 0, 0), 0);
    assert_eq!(corrected_elapsed(ANCHOR, 0, 5_000_000), 0);
    assert_eq!(unix_seconds_at(ANCHOR, 0, 5_999_999), 1_700_000_000);
    assert_eq!(unix_seconds_at(ANCHOR, 0, 6_000_000), 1_700_000_001);
}

#[test]
fn correction_goes_against_the_drift() {
    let now_us = 5_000_000 + 1_000_000_000;
    assert_eq!(corrected_elapsed(ANCHOR, 100_000, now_us), 999_900_000);
    assert_eq!(corrected_elapsed(ANCHOR, -100_000, now_us), 1_000_100_000);
}

#[test]
fn claims_leave_other_pins_alone() {
    let mut registry = PinRegistry::new();
    registry.claim(3, "a").unwrap();
    registry.claim(4, "b").unwrap();
    registry.release(3);
    assert_eq!(registry.owner(3), None);
    assert_eq!(registry.owner(4), Some("b"));
}

#[test]
fn locked_dispersion_is_accuracy_and_drift() {
    let mut server = NtpServer::new(1);
    server.update_gps_utc_seconds(1_700_000_000, 1_000);
    server.observe_pps_pulse(None, 1_000, read_clock(1_000));
    let at = |us: i64| server.discipline_params(true, read_clock(1_000 + us)).root_disp_us;
    assert_eq!(at(0), 100);
    assert_eq!(at(999_999), 114);
    assert_eq!(at(1_000_000), 115);
    assert_eq!(at(9_999_999), 115);
    assert_eq!(at(10_000_000), 1_000);
}

#[test]
fn anchor_is_kept_through_anything() {
    let mut server = NtpServer::new(1);
    server.update_gps_utc_seconds(1_700_000_000, 1_000);
    for interval in [None, Some(0), Some(1_000_000), Some(1_200_000), Some(u32::MAX)] {
        server.observe_pps_pulse(interval, 2_000, read_clock(2_000));
        assert!(server.clock_anchor.is_some());
    }
    server.update_gps_utc_seconds(-5, 3_000);
    assert!(server.clock_anchor.is_some());
}

#[test]
fn one_client_does_not_use_up_the_time_of_another() {
    let mut limiter = RateLimiter::new();
    assert!(limiter.check(1, 0));
    assert!(limiter.check(2, 1));
    assert!(!limiter.check(1, 2));
    assert!(!limiter.check(2, 2));
}

#[test]
fn first_bytes_of_answers() {
    let dp = DisciplineParams {
        stratum: 1,
        leap: 2,
        root_disp_short: 0x0102_0304,
        root_disp_us: 100,
        ref_ts: 0,
        current_ts: 0,
        precision: -11,
    };
    let mut req = [0_u8; 48];
    req[0] = (4 << 3) | 3;
    req[2] = 6;
    let resp = build_response(&req, &dp, 0);
    assert_eq!(resp[0], (2 << 6) | (4 << 3) | 4);
    assert_eq!(resp[8..12], [1, 2, 3, 4]);
    let kod = build_kod_response(&req, 0);
    assert_eq!(kod[0] & 7, 4);
    assert_eq!(kod[0] >> 6, 3);
}

#[test]
fn edge_is_reported_once() {
    let mut state = PpsPollState::default();
    assert_eq!(state.observe(1, 500), Some(PpsEvent::First { edge_us: 500 }));
    assert_eq!(state.observe(1, 900), None);
    assert_eq!(state.observe(3, 1_500), Some(PpsEvent::Delta { interval_us: 1_000, edge_us: 1_500 }));
    assert_eq!(state.observe(2, 2_000), None);
}
