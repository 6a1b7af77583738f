use rust_gps_ntp::ntp::clock::{
    ntp_timestamp_from_wall, ntp_timestamp_now, read_clock, reading_from, ClockAnchor,
    ClockReading, MICROS_PER_SEC, NTP_UNIX_EPOCH_OFFSET_SECS,
};
use rust_gps_ntp::ntp::mode6::{
    build_mode6_response, ntp_ts_to_mode6, ServoMetrics, MODE6_ASSOC_ID, MODE6_OPCODE_READSTAT,
    MODE6_OPCODE_READVAR, NTP_CONTROL_HEADER_LEN,
};
use rust_gps_ntp::ntp::packet::{
    build_kod_response, build_response, stamp_transmit, write_u32_be, write_u64_be,
    DisciplineParams, NTP_PACKET_LEN,
};
use rust_gps_ntp::ntp::protection::MIN_POLL_INTERVAL_US;
use rust_gps_ntp::ntp::{
    ntp_precision_from_uncertainty_ps, Acl, DisciplineState, NtpServer, PacketAction,
    BASE_DISP_US, GPS_STALE_THRESHOLD_US, HOLDOVER_ENTRY_US, MIN_HW_ACCURACY_US,
    SERVO_MAX_FREQ_PPB,
};

/// Monotonic time at which the tests play.
const NOW_US: i64 = 20_000_000_000;

const PICOS: u128 = 1_000_000;

const LOOPBACK: u32 = 0x7F00_0001;

fn at(now_us: i64) -> ClockReading {
    read_clock(now_us)
}

fn new_server() -> NtpServer {
    NtpServer::new(1)
}

fn gps(server: &mut NtpServer, utc: i64) {
    server.update_gps_utc_seconds(utc, NOW_US);
}

fn pps_now(server: &mut NtpServer, interval: Option<u32>) {
    server.observe_pps_pulse(interval, NOW_US, at(NOW_US));
}

fn pps_stale_ago(server: &mut NtpServer, interval: Option<u32>, ago_us: i64) {
    server.observe_pps_pulse(interval, NOW_US - ago_us, at(NOW_US));
}

fn params(server: &NtpServer, gps_fix: bool) -> DisciplineParams {
    server.discipline_params(gps_fix, at(NOW_US))
}

fn dp(stratum: u8, leap: u8, root_disp_short: u32, root_disp_us: u32) -> DisciplineParams {
    DisciplineParams {
        stratum,
        leap,
        root_disp_short,
        root_disp_us,
        ref_ts: 0,
        current_ts: 0,
        precision: -10,
    }
}

fn metrics(offset_us: i32, jitter_us: u64, delay_us: u128, freq_ppb: i32) -> ServoMetrics {
    ServoMetrics {
        pps_offset_us: offset_us,
        pps_jitter_ps: jitter_us * PICOS as u64,
        proc_delay_ps: delay_us * PICOS,
        freq_ppb,
    }
}

fn control_request(opcode: u8, assoc: u16) -> Vec<u8> {
    let mut req = vec![0_u8; NTP_CONTROL_HEADER_LEN];
    req[1] = opcode;
    req[6..8].copy_from_slice(&assoc.to_be_bytes());
    req
}

fn make_mode6_req(opcode: u8, assoc: u16) -> Vec<u8> {
    let mut req = control_request(opcode, assoc);
    req[0] = (4 << 3) | 6;
    req
}

fn payload_of(resp: &[u8]) -> String {
    String::from_utf8_lossy(&resp[NTP_CONTROL_HEADER_LEN..]).into_owned()
}

fn synced_dp() -> DisciplineParams {
    dp(1, 0, 1 << 14, 100)
}

fn client_ntp_request() -> [u8; NTP_PACKET_LEN] {
    let mut req = [0_u8; NTP_PACKET_LEN];
    req[0] = (4 << 3) | 3;
    req
}

/// Hand a packet from the loopback address to the server and carry out what it decides.
fn poll(server: &mut NtpServer, packet: &[u8], gps_fix: bool) -> Option<Vec<u8>> {
    let received = at(NOW_US);
    match server.handle_packet(packet, Some(LOOPBACK), gps_fix, received, at(NOW_US)) {
        PacketAction::Ignore => None,
        PacketAction::SendKod(resp) => Some(resp.to_vec()),
        PacketAction::SendControl(resp) => {
            server.control_sent();
            Some(resp)
        }
        PacketAction::SendTime(mut resp) => {
            stamp_transmit(&mut resp, server.current_ntp_timestamp(at(NOW_US + 40)));
            server.time_sent(NOW_US, NOW_US + 40);
            Some(resp.to_vec())
        }
    }
}

/// Decode an NTP 64-bit timestamp to Unix epoch microseconds.
fn ntp_timestamp_to_unix_us(ts: u64) -> i64 {
    let ntp_seconds = (ts >> 32) as i64;
    let unix_seconds = ntp_seconds - NTP_UNIX_EPOCH_OFFSET_SECS as i64;
    let fraction = ts & 0xFFFF_FFFF;
    let micros = (fraction as i128 * 1_000_000 / (1i128 << 32)) as i64;
    unix_seconds * MICROS_PER_SEC + micros
}

fn root_disp_ms(dp: &DisciplineParams) -> f64 {
    dp.root_disp_us as f64 / 1_000.0
}

fn freq_ppm(server: &NtpServer) -> f64 {
    server.freq_ppb as f64 / 1_000.0
}

#[test]
fn mod_build_response_sets_server_mode_and_stratum_when_synced() {
    let req = [0_u8; NTP_PACKET_LEN];
    let resp = build_response(&req, &dp(1, 0, 1 << 16, 1_000), 0x0123_0000_0000_0000);
    assert_eq!(resp[0] & 0x07, 4);
    assert_eq!(resp[1], 1);
    assert_eq!(&resp[12..16], b"GPS\0");
}

#[test]
fn ntp_build_response_sets_server_mode_and_stratum_when_synced() {
    let req = [0_u8; NTP_PACKET_LEN];
    let resp = build_response(&req, &dp(1, 0, 1 << 16, 1_000), 0x0123_0000_0000_0000);
    assert_eq!(resp[0] & 0x07, 4);
    assert_eq!(resp[1], 1);
    assert_eq!(&resp[12..16], b"GPS\0");
}

#[test]
fn mod_build_response_marks_unsynced_with_init_refid() {
    let req = [0_u8; NTP_PACKET_LEN];
    let resp = build_response(&req, &dp(16, 3, 5 << 16, 5_000_000), 0);
    assert_eq!(resp[1], 16);
    assert_eq!(&resp[12..16], b"INIT");
}

#[test]
fn ntp_build_response_marks_unsynced_with_init_refid() {
    let req = [0_u8; NTP_PACKET_LEN];
    let resp = build_response(&req, &dp(16, 3, 5 << 16, 5_000_000), 0);
    assert_eq!(resp[1], 16);
    assert_eq!(&resp[12..16], b"INIT");
}

#[test]
fn mod_build_mode6_readvar_includes_gps_peer_when_synced() {
    let req = control_request(MODE6_OPCODE_READVAR, MODE6_ASSOC_ID);
    let resp = build_mode6_response(&req, 4, &dp(1, 0, 1 << 16, 1_000), &metrics(250, 500, 1200, 0));
    let payload = payload_of(&resp);
    assert!(payload.contains("refid=GPS"));
    assert!(payload.contains("stratum=1"));
}

#[test]
fn ntp_build_mode6_readvar_includes_gps_peer_when_synced() {
    let req = control_request(MODE6_OPCODE_READVAR, MODE6_ASSOC_ID);
    let resp = build_mode6_response(&req, 4, &dp(1, 0, 1 << 16, 1_000), &metrics(250, 500, 1200, 0));
    let payload = payload_of(&resp);
    assert!(payload.contains("refid=GPS"));
    assert!(payload.contains("stratum=1"));
}

#[test]
fn mod_write_u64_be_roundtrip() {
    let mut buf = [0_u8; 8];
    write_u64_be(&mut buf, 0x0123_4567_89ab_cdef);
    assert_eq!(buf, 0x0123_4567_89ab_cdef_u64.to_be_bytes());
}

#[test]
fn ntp_write_u64_be_roundtrip() {
    let mut buf = [0_u8; 8];
    write_u64_be(&mut buf, 0x0123_4567_89ab_cdef);
    assert_eq!(buf, 0x0123_4567_89ab_cdef_u64.to_be_bytes());
}

#[test]
fn mod_write_u32_be_roundtrip() {
    let mut buf = [0_u8; 4];
    write_u32_be(&mut buf, 0x0123_4567);
    assert_eq!(buf, 0x0123_4567_u32.to_be_bytes());
}

#[test]
fn ntp_write_u32_be_roundtrip() {
    let mut buf = [0_u8; 4];
    write_u32_be(&mut buf, 0x0123_4567);
    assert_eq!(buf, 0x0123_4567_u32.to_be_bytes());
}

#[test]
fn mod_ntp_timestamp_now_is_nonzero() {
    assert_ne!(ntp_timestamp_now(), 0);
}

#[test]
fn ntp_ntp_timestamp_now_is_nonzero() {
    assert_ne!(ntp_timestamp_now(), 0);
}

#[test]
fn mod_build_mode6_readstat_returns_association_row() {
    let req = control_request(MODE6_OPCODE_READSTAT, 0);
    let resp = build_mode6_response(&req, 4, &dp(1, 0, 1 << 16, 1_000), &metrics(0, 0, 0, 0));
    assert_eq!(resp.len(), NTP_CONTROL_HEADER_LEN + 4);
}

#[test]
fn ntp_build_mode6_readstat_returns_association_row() {
    let req = control_request(MODE6_OPCODE_READSTAT, 0);
    let resp = build_mode6_response(&req, 4, &dp(1, 0, 1 << 16, 1_000), &metrics(0, 0, 0, 0));
    assert_eq!(resp.len(), NTP_CONTROL_HEADER_LEN + 4);
}

#[test]
fn mod_build_mode6_readvar_unsynced_system_vars() {
    let req = control_request(MODE6_OPCODE_READVAR, 0);
    let resp = build_mode6_response(&req, 4, &dp(16, 3, 5 << 16, 5_000_000), &metrics(0, 0, 0, 0));
    let payload = payload_of(&resp);
    assert!(payload.contains("stratum=16"));
    assert!(payload.contains("refid=INIT"));
}

#[test]
fn ntp_build_mode6_readvar_unsynced_system_vars() {
    let req = control_request(MODE6_OPCODE_READVAR, 0);
    let resp = build_mode6_response(&req, 4, &dp(16, 3, 5 << 16, 5_000_000), &metrics(0, 0, 0, 0));
    let payload = payload_of(&resp);
    assert!(payload.contains("stratum=16"));
    assert!(payload.contains("refid=INIT"));
}

#[test]
fn mod_build_mode6_readvar_unsynced_peer_vars() {
    let req = control_request(MODE6_OPCODE_READVAR, MODE6_ASSOC_ID);
    let resp = build_mode6_response(&req, 4, &dp(16, 3, 5 << 16, 5_000_000), &metrics(0, 0, 0, 0));
    assert!(payload_of(&resp).contains("srcadr=INIT"));
}

#[test]
fn ntp_build_mode6_readvar_unsynced_peer_vars() {
    let req = control_request(MODE6_OPCODE_READVAR, MODE6_ASSOC_ID);
    let resp = build_mode6_response(&req, 4, &dp(16, 3, 5 << 16, 5_000_000), &metrics(0, 0, 0, 0));
    assert!(payload_of(&resp).contains("srcadr=INIT"));
}

#[test]
fn mod_build_mode6_unsupported_opcode_sets_error_bit() {
    let req = control_request(99, 0);
    let resp = build_mode6_response(&req, 4, &dp(1, 0, 1 << 16, 1_000), &metrics(0, 0, 0, 0));
    assert_ne!(resp[1] & 0x40, 0);
}

#[test]
fn ntp_build_mode6_unsupported_opcode_sets_error_bit() {
    let req = control_request(99, 0);
    let resp = build_mode6_response(&req, 4, &dp(1, 0, 1 << 16, 1_000), &metrics(0, 0, 0, 0));
    assert_ne!(resp[1] & 0x40, 0);
}

#[test]
fn mod_build_mode6_invalid_version_defaults_to_v4() {
    let req = control_request(MODE6_OPCODE_READVAR, 0);
    let resp = build_mode6_response(&req, 0, &dp(16, 3, 5 << 16, 5_000_000), &metrics(0, 0, 0, 0));
    assert_eq!((resp[0] >> 3) & 0x07, 4);
}

#[test]
fn ntp_build_mode6_invalid_version_defaults_to_v4() {
    let req = control_request(MODE6_OPCODE_READVAR, 0);
    let resp = build_mode6_response(&req, 0, &dp(16, 3, 5 << 16, 5_000_000), &metrics(0, 0, 0, 0));
    assert_eq!((resp[0] >> 3) & 0x07, 4);
}

#[test]
fn mod_update_gps_utc_seconds_establishes_anchor() {
    let mut server = new_server();
    gps(&mut server, 1_700_000_000);
    assert!(server.clock_anchor.is_some());
    assert_eq!(server.last_gps_utc_seconds, Some(1_700_000_000));
}

#[test]
fn ntp_update_gps_utc_seconds_establishes_anchor() {
    let mut server = new_server();
    gps(&mut server, 1_700_000_000);
    assert!(server.clock_anchor.is_some());
    assert_eq!(server.last_gps_utc_seconds, Some(1_700_000_000));
}

#[test]
fn mod_update_gps_utc_seconds_reanchors_on_large_drift() {
    let mut server = new_server();
    gps(&mut server, 1_700_000_000);
    gps(&mut server, 1_700_000_010);
    let anchor = server.clock_anchor.expect("anchor");
    assert_eq!(anchor.unix_seconds, 1_700_000_010);
}

#[test]
fn ntp_update_gps_utc_seconds_reanchors_on_large_drift() {
    let mut server = new_server();
    gps(&mut server, 1_700_000_000);
    gps(&mut server, 1_700_000_010);
    let anchor = server.clock_anchor.expect("anchor");
    assert_eq!(anchor.unix_seconds, 1_700_000_010);
}

#[test]
fn mod_observe_pps_pulse_first_pulse_locks_to_gps() {
    let mut server = new_server();
    gps(&mut server, 1_700_000_000);
    pps_now(&mut server, None);
    assert!(server.pps_locked);
    assert!(server.last_pps_monotonic_us.is_some());
}

#[test]
fn ntp_observe_pps_pulse_first_pulse_locks_to_gps() {
    let mut server = new_server();
    gps(&mut server, 1_700_000_000);
    pps_now(&mut server, None);
    assert!(server.pps_locked);
    assert!(server.last_pps_monotonic_us.is_some());
}

#[test]
fn first_pps_pulse_applies_nmea_pps_fudge_to_anchor() {
    let gps_utc = 1_700_000_000_i64;
    let mut server = new_server();
    gps(&mut server, gps_utc);
    pps_now(&mut server, None);
    let anchor = server.clock_anchor.expect("anchor");
    assert_eq!(anchor.unix_seconds, gps_utc + server.nmea_pps_fudge_s);
    assert_eq!(anchor.unix_seconds, 1_700_000_001);
}

#[test]
fn mod_observe_pps_pulse_valid_interval_advances_anchor() {
    let mut server = new_server();
    gps(&mut server, 1_700_000_000);
    pps_now(&mut server, None);
    let before = server.clock_anchor.expect("anchor").unix_seconds;
    pps_now(&mut server, Some(1_000_000));
    assert_eq!(server.clock_anchor.expect("anchor").unix_seconds, before + 1);
    assert!(server.pps_has_sample);
}

#[test]
fn ntp_observe_pps_pulse_valid_interval_advances_anchor() {
    let mut server = new_server();
    gps(&mut server, 1_700_000_000);
    pps_now(&mut server, None);
    let before = server.clock_anchor.expect("anchor").unix_seconds;
    pps_now(&mut server, Some(1_000_000));
    assert_eq!(server.clock_anchor.expect("anchor").unix_seconds, before + 1);
    assert!(server.pps_has_sample);
}

#[test]
fn mod_observe_pps_pulse_ignores_invalid_interval() {
    let mut server = new_server();
    gps(&mut server, 1_700_000_000);
    pps_now(&mut server, Some(2_000_000));
    assert!(!server.pps_has_sample);
}

#[test]
fn ntp_observe_pps_pulse_ignores_invalid_interval() {
    let mut server = new_server();
    gps(&mut server, 1_700_000_000);
    pps_now(&mut server, Some(2_000_000));
    assert!(!server.pps_has_sample);
}

#[test]
fn mod_poll_serves_client_time_request() {
    let gps_utc = 1_700_000_000_i64;
    let mut server = new_server();
    gps(&mut server, gps_utc);
    pps_now(&mut server, None);
    let expected_us = ntp_timestamp_to_unix_us(server.current_ntp_timestamp(at(NOW_US)));

    let resp = poll(&mut server, &client_ntp_request(), true).expect("response");
    assert_eq!(resp.len(), NTP_PACKET_LEN);
    assert_eq!(resp[0] & 0x07, 4);
    assert_eq!(resp[1], 1);

    let transmit_ts = u64::from_be_bytes(resp[40..48].try_into().unwrap());
    let transmit_us = ntp_timestamp_to_unix_us(transmit_ts);
    let anchor_unix = gps_utc + server.nmea_pps_fudge_s;
    assert!((transmit_us - anchor_unix * MICROS_PER_SEC).abs() < 5_000_000);
    assert!((transmit_us - expected_us).abs() < 5_000);
}

#[test]
fn ntp_poll_serves_client_time_request() {
    let mut server = new_server();
    gps(&mut server, 1_700_000_000);
    pps_now(&mut server, None);
    let resp = poll(&mut server, &client_ntp_request(), true).expect("response");
    assert_eq!(resp.len(), NTP_PACKET_LEN);
    assert_eq!(resp[0] & 0x07, 4);
    assert_eq!(resp[1], 1);
}

#[test]
fn poll_response_receive_timestamp_precedes_transmit() {
    let mut server = new_server();
    gps(&mut server, 1_700_000_000);
    pps_now(&mut server, None);
    let resp = poll(&mut server, &client_ntp_request(), true).expect("response");
    let receive_ts = u64::from_be_bytes(resp[32..40].try_into().unwrap());
    let transmit_ts = u64::from_be_bytes(resp[40..48].try_into().unwrap());
    assert_ne!(receive_ts, 0, "receive timestamp should be populated");
    assert!(receive_ts <= transmit_ts, "T2 (receive) must not follow T3 (transmit)");
}

#[test]
fn mod_poll_serves_mode6_readvar() {
    let mut server = new_server();
    let req = make_mode6_req(MODE6_OPCODE_READVAR, MODE6_ASSOC_ID);
    let resp = poll(&mut server, &req, false).expect("mode-6 response");
    assert!(resp.len() >= NTP_CONTROL_HEADER_LEN);
}

#[test]
fn ntp_poll_serves_mode6_readvar() {
    let mut server = new_server();
    let req = make_mode6_req(MODE6_OPCODE_READVAR, MODE6_ASSOC_ID);
    let resp = poll(&mut server, &req, false).expect("mode-6 response");
    assert!(resp.len() >= NTP_CONTROL_HEADER_LEN);
}

#[test]
fn mod_poll_serves_unsynced_time_request_without_anchor() {
    let mut server = new_server();
    let resp = poll(&mut server, &client_ntp_request(), false).expect("response");
    assert_eq!(resp.len(), NTP_PACKET_LEN);
    assert_eq!(resp[1], 16);
}

#[test]
fn ntp_poll_serves_unsynced_time_request_without_anchor() {
    let mut server = new_server();
    let resp = poll(&mut server, &client_ntp_request(), false).expect("response");
    assert_eq!(resp.len(), NTP_PACKET_LEN);
    assert_eq!(resp[1], 16);
}

#[test]
fn mod_poll_smoothes_processing_delay_after_second_request() {
    let mut server = new_server();
    gps(&mut server, 1_700_000_000);
    pps_now(&mut server, None);
    for _ in 0..2 {
        poll(&mut server, &client_ntp_request(), true).expect("response");
    }
    assert!(server.proc_delay_has_sample);
    assert!(server.proc_delay_ps >= PICOS);
    let snap = server.ntp_snapshot(true, at(NOW_US));
    assert!(snap.proc_delay_ps >= PICOS);
}

#[test]
fn ntp_poll_smoothes_processing_delay_after_second_request() {
    let mut server = new_server();
    gps(&mut server, 1_700_000_000);
    pps_now(&mut server, None);
    for _ in 0..2 {
        poll(&mut server, &client_ntp_request(), true).expect("response");
    }
    assert!(server.proc_delay_has_sample);
    assert!(server.proc_delay_ps >= PICOS);
}

#[test]
fn mod_observe_pps_pulse_smoothes_jitter_on_second_valid_interval() {
    let mut server = new_server();
    gps(&mut server, 1_700_000_000);
    pps_now(&mut server, None);
    pps_now(&mut server, Some(1_000_250));
    pps_now(&mut server, Some(1_000_500));
    assert!(server.pps_has_sample);
    assert_eq!(server.pps_offset_us, 500);
    assert!(server.pps_jitter_ps > 0);
}

#[test]
fn ntp_observe_pps_pulse_smoothes_jitter_on_second_valid_interval() {
    let mut server = new_server();
    gps(&mut server, 1_700_000_000);
    pps_now(&mut server, None);
    pps_now(&mut server, Some(1_000_250));
    pps_now(&mut server, Some(1_000_500));
    assert!(server.pps_has_sample);
    assert_eq!(server.pps_offset_us, 500);
    assert!(server.pps_jitter_ps > 0);
}

#[test]
fn mod_poll_ignores_short_client_packet() {
    let mut server = new_server();
    assert!(poll(&mut server, &[0_u8; 8], false).is_none());
}

#[test]
fn ntp_poll_ignores_short_client_packet() {
    let mut server = new_server();
    assert!(poll(&mut server, &[0_u8; 8], false).is_none());
}

#[test]
fn mod_servo_updates_freq_ppm_positive_for_fast_clock() {
    let mut server = new_server();
    gps(&mut server, 1_700_000_000);
    pps_now(&mut server, None);
    pps_now(&mut server, Some(1_000_500));
    assert!(freq_ppm(&server) > 0.0);
    assert!((freq_ppm(&server) - 5.0).abs() < 0.001);
}

#[test]
fn ntp_servo_updates_freq_ppm_positive_for_fast_clock() {
    let mut server = new_server();
    gps(&mut server, 1_700_000_000);
    pps_now(&mut server, None);
    pps_now(&mut server, Some(1_000_500));
    assert!(freq_ppm(&server) > 0.0);
    assert!((freq_ppm(&server) - 5.0).abs() < 0.001);
}

#[test]
fn mod_servo_updates_freq_ppm_negative_for_slow_clock() {
    let mut server = new_server();
    gps(&mut server, 1_700_000_000);
    pps_now(&mut server, None);
    pps_now(&mut server, Some(999_500));
    assert!(freq_ppm(&server) < 0.0);
    assert!((freq_ppm(&server) + 5.0).abs() < 0.001);
}

#[test]
fn ntp_servo_updates_freq_ppm_negative_for_slow_clock() {
    let mut server = new_server();
    gps(&mut server, 1_700_000_000);
    pps_now(&mut server, None);
    pps_now(&mut server, Some(999_500));
    assert!(freq_ppm(&server) < 0.0);
    assert!((freq_ppm(&server) + 5.0).abs() < 0.001);
}

#[test]
fn mod_servo_accumulates_freq_over_multiple_pulses() {
    let mut server = new_server();
    gps(&mut server, 1_700_000_000);
    pps_now(&mut server, None);
    for _ in 0..10 {
        pps_now(&mut server, Some(1_000_100));
    }
    assert!((freq_ppm(&server) - 10.0).abs() < 0.01);
}

#[test]
fn ntp_servo_accumulates_freq_over_multiple_pulses() {
    let mut server = new_server();
    gps(&mut server, 1_700_000_000);
    pps_now(&mut server, None);
    for _ in 0..10 {
        pps_now(&mut server, Some(1_000_100));
    }
    assert!((freq_ppm(&server) - 10.0).abs() < 0.01);
}

#[test]
fn mod_servo_clamps_freq_ppm_at_max() {
    let mut server = new_server();
    gps(&mut server, 1_700_000_000);
    pps_now(&mut server, None);
    for _ in 0..10_000 {
        pps_now(&mut server, Some(1_200_000));
    }
    assert_eq!(server.freq_ppb as i64, SERVO_MAX_FREQ_PPB);
    assert_eq!(SERVO_MAX_FREQ_PPB, 500_000);
}

#[test]
fn ntp_servo_clamps_freq_ppm_at_max() {
    let mut server = new_server();
    gps(&mut server, 1_700_000_000);
    pps_now(&mut server, None);
    for _ in 0..10_000 {
        pps_now(&mut server, Some(1_200_000));
    }
    assert_eq!(server.freq_ppb as i64, SERVO_MAX_FREQ_PPB);
}

#[test]
fn ntp_precision_exponent_scales_with_uncertainty() {
    assert_eq!(ntp_precision_from_uncertainty_ps(PICOS), -20);
    assert_eq!(ntp_precision_from_uncertainty_ps(100 * PICOS), -14);
    assert_eq!(ntp_precision_from_uncertainty_ps(500 * PICOS), -11);
    assert_eq!(ntp_precision_from_uncertainty_ps(2_000_000 * PICOS), -4);
}

#[test]
fn discipline_params_precision_reflects_jitter_and_loop_floor() {
    let mut server = new_server();
    gps(&mut server, 1_700_000_000);
    pps_now(&mut server, None);
    server.pps_jitter_ps = 200 * PICOS as u64;
    server.pps_has_sample = true;
    assert_eq!(params(&server, true).precision, -11);
}

#[test]
fn discipline_params_precision_poor_when_unsynced() {
    assert_eq!(params(&new_server(), false).precision, -4);
}

#[test]
fn build_response_precision_matches_discipline_params() {
    let dp = DisciplineParams { precision: -11, ..dp(1, 0, 1 << 16, 1_000) };
    let resp = build_response(&[0_u8; NTP_PACKET_LEN], &dp, 0);
    assert_eq!(resp[3], (-11_i8) as u8);
}

#[test]
fn mod_discipline_params_fully_synced_gives_stratum_1_and_base_dispersion() {
    let mut server = new_server();
    gps(&mut server, 1_700_000_000);
    pps_now(&mut server, None);
    let dp = params(&server, true);
    assert_eq!(dp.stratum, 1);
    assert_eq!(dp.leap, 0);
    assert!(root_disp_ms(&dp) >= 0.09 && root_disp_ms(&dp) < 0.5);
}

#[test]
fn mod_discipline_params_fresh_pps_holds_stratum_1_without_gps_fix() {
    let mut server = new_server();
    gps(&mut server, 1_700_000_000);
    pps_now(&mut server, None);
    assert_eq!(params(&server, false).stratum, 1);
}

#[test]
fn ntp_discipline_params_fresh_pps_holds_stratum_1_without_gps_fix() {
    let mut server = new_server();
    gps(&mut server, 1_700_000_000);
    pps_now(&mut server, None);
    assert_eq!(params(&server, false).stratum, 1);
}

#[test]
fn mod_discipline_params_stale_pps_and_no_gps_fix_gives_stratum_16() {
    let mut server = new_server();
    gps(&mut server, 1_700_000_000);
    pps_stale_ago(&mut server, None, HOLDOVER_ENTRY_US + 3_000 * MICROS_PER_SEC);
    let dp = params(&server, false);
    assert_eq!(dp.stratum, 16);
    assert_eq!(dp.leap, 3);
}

#[test]
fn ntp_discipline_params_stale_pps_and_no_gps_fix_gives_stratum_16() {
    let mut server = new_server();
    gps(&mut server, 1_700_000_000);
    pps_now(&mut server, None);
    server.last_pps_monotonic_us = Some(NOW_US - (HOLDOVER_ENTRY_US + 3_000 * MICROS_PER_SEC));
    let dp = params(&server, false);
    assert_eq!(dp.stratum, 16);
    assert_eq!(dp.leap, 3);
}

#[test]
fn mod_discipline_params_no_pps_no_anchor_gives_stratum_16() {
    assert_eq!(params(&new_server(), true).stratum, 16);
}

#[test]
fn ntp_discipline_params_no_pps_no_anchor_gives_stratum_16() {
    assert_eq!(params(&new_server(), true).stratum, 16);
}

#[test]
fn mod_holdover_dispersion_grows_after_pps_loss() {
    let mut server = new_server();
    gps(&mut server, 1_700_000_000);
    pps_stale_ago(&mut server, None, HOLDOVER_ENTRY_US + 60 * MICROS_PER_SEC);
    let dp = params(&server, true);
    assert!(root_disp_ms(&dp) > 1.0);
    assert!(root_disp_ms(&dp) > 29.0);
    assert_eq!(dp.stratum, 1);
}

#[test]
fn ntp_holdover_dispersion_grows_after_pps_loss() {
    let mut server = new_server();
    gps(&mut server, 1_700_000_000);
    pps_now(&mut server, None);
    server.last_pps_monotonic_us = Some(NOW_US - (HOLDOVER_ENTRY_US + 60 * MICROS_PER_SEC));
    let dp = params(&server, true);
    assert!(root_disp_ms(&dp) > 1.0);
    assert!(root_disp_ms(&dp) > 29.0);
    assert_eq!(dp.stratum, 1);
}

#[test]
fn mod_holdover_declares_stratum_16_when_dispersion_exceeds_1s() {
    let mut server = new_server();
    gps(&mut server, 1_700_000_000);
    let holdover_secs = 2_010_i64;
    pps_stale_ago(&mut server, None, HOLDOVER_ENTRY_US + holdover_secs * MICROS_PER_SEC);
    let dp = params(&server, true);
    assert_eq!(dp.stratum, 16);
    assert_eq!(dp.leap, 3);
}

#[test]
fn ntp_holdover_declares_stratum_16_when_dispersion_exceeds_1s() {
    let mut server = new_server();
    gps(&mut server, 1_700_000_000);
    pps_now(&mut server, None);
    let holdover_secs = 2_010_i64;
    server.last_pps_monotonic_us =
        Some(NOW_US - (HOLDOVER_ENTRY_US + holdover_secs * MICROS_PER_SEC));
    let dp = params(&server, true);
    assert_eq!(dp.stratum, 16);
    assert_eq!(dp.leap, 3);
}

#[test]
fn mod_holdover_stratum_1_restored_after_pps_returns() {
    let mut server = new_server();
    gps(&mut server, 1_700_000_000);
    pps_stale_ago(&mut server, None, HOLDOVER_ENTRY_US + 3_000 * MICROS_PER_SEC);
    assert_eq!(params(&server, true).stratum, 16);
    pps_now(&mut server, Some(1_000_000));
    assert_eq!(params(&server, true).stratum, 1);
}

#[test]
fn ntp_holdover_stratum_1_restored_after_pps_returns() {
    let mut server = new_server();
    gps(&mut server, 1_700_000_000);
    pps_now(&mut server, None);
    server.last_pps_monotonic_us = Some(NOW_US - (HOLDOVER_ENTRY_US + 3_000 * MICROS_PER_SEC));
    assert_eq!(params(&server, true).stratum, 16);
    pps_now(&mut server, Some(1_000_000));
    assert_eq!(params(&server, true).stratum, 1);
}

#[test]
fn mod_freq_correction_does_not_affect_zero_freq_ppm() {
    let mut server = new_server();
    gps(&mut server, 1_700_000_000);
    pps_now(&mut server, None);
    assert_eq!(server.freq_ppb, 0);
    assert_ne!(server.current_ntp_timestamp(at(NOW_US)), 0);
}

#[test]
fn ntp_freq_correction_does_not_affect_zero_freq_ppm() {
    let mut server = new_server();
    gps(&mut server, 1_700_000_000);
    pps_now(&mut server, None);
    assert_eq!(server.freq_ppb, 0);
    assert_ne!(server.current_ntp_timestamp(at(NOW_US)), 0);
}

#[test]
fn last_sync_ntp_ts_set_on_first_pulse() {
    let mut server = new_server();
    gps(&mut server, 1_700_000_000);
    assert_eq!(server.last_sync_ntp_ts, 0);
    pps_now(&mut server, None);
    assert_ne!(server.last_sync_ntp_ts, 0);
}

#[test]
fn last_sync_ntp_ts_updated_on_subsequent_pulse() {
    let mut server = new_server();
    gps(&mut server, 1_700_000_000);
    pps_now(&mut server, None);
    let first_ref = server.last_sync_ntp_ts;
    pps_now(&mut server, Some(1_000_000));
    let delta_secs = ((server.last_sync_ntp_ts >> 32) as i64) - ((first_ref >> 32) as i64);
    assert_eq!(delta_secs, 1);
}

#[test]
fn build_response_uses_last_sync_ts_as_reference_timestamp() {
    let fixed_ref_ts = 0xE9D1_E7B4_0000_0000_u64;
    let dp = DisciplineParams {
        ref_ts: fixed_ref_ts,
        current_ts: fixed_ref_ts + 0x1_0000_0000,
        ..dp(1, 0, 1 << 16, 100)
    };
    let req = [0_u8; NTP_PACKET_LEN];
    let receive_ts = fixed_ref_ts + 0x5_0000_0000;
    let resp = build_response(&req, &dp, receive_ts);
    let ref_ts_in_resp = u64::from_be_bytes(resp[16..24].try_into().unwrap());
    assert_eq!(ref_ts_in_resp, fixed_ref_ts);
}

#[test]
fn build_response_reference_timestamp_zero_when_unsynced() {
    let dp = DisciplineParams { ref_ts: 0xDEAD_BEEF_0000_0000, ..dp(16, 3, 5 << 16, 5_000_000) };
    let req = [0_u8; NTP_PACKET_LEN];
    let resp = build_response(&req, &dp, 0x1234);
    let ref_ts_in_resp = u64::from_be_bytes(resp[16..24].try_into().unwrap());
    assert_eq!(ref_ts_in_resp, 0);
}

#[test]
fn discipline_params_locked_dispersion_uses_phi_model() {
    let mut server = new_server();
    gps(&mut server, 1_700_000_000);
    pps_now(&mut server, None);
    server.pps_jitter_ps = 200 * PICOS as u64;
    server.pps_has_sample = true;
    let dp = params(&server, true);
    assert!(root_disp_ms(&dp) < 1.0);
    assert!(root_disp_ms(&dp) >= 0.1);
}

#[test]
fn discipline_params_locked_dispersion_minimum_is_hw_floor() {
    let mut server = new_server();
    gps(&mut server, 1_700_000_000);
    pps_now(&mut server, None);
    server.pps_has_sample = false;
    let dp = params(&server, true);
    assert!((root_disp_ms(&dp) - (MIN_HW_ACCURACY_US as f64 / 1_000.0)).abs() < 0.02);
}

#[test]
fn build_mode6_system_status_clksrc_is_gps_when_synced() {
    let req = control_request(MODE6_OPCODE_READSTAT, 0);
    let resp = build_mode6_response(&req, 4, &dp(1, 0, 1 << 16, 100), &metrics(0, 0, 0, 0));
    let sys_status = u16::from_be_bytes([resp[4], resp[5]]);
    let clksrc = (sys_status >> 8) & 0x3f;
    assert_eq!(clksrc, 4);
    let li = sys_status >> 14;
    assert_eq!(li, 0);
}

#[test]
fn build_mode6_system_status_unsynced_has_li_alarm() {
    let req = control_request(MODE6_OPCODE_READSTAT, 0);
    let resp = build_mode6_response(&req, 4, &dp(16, 3, 5 << 16, 5_000_000), &metrics(0, 0, 0, 0));
    let sys_status = u16::from_be_bytes([resp[4], resp[5]]);
    let li = sys_status >> 14;
    assert_eq!(li, 3);
}

#[test]
fn build_mode6_readstat_peer_status_sel_is_system_peer_when_synced() {
    let req = control_request(MODE6_OPCODE_READSTAT, 0);
    let resp = build_mode6_response(&req, 4, &dp(1, 0, 1 << 16, 100), &metrics(0, 0, 0, 0));
    let peer_status = u16::from_be_bytes([
        resp[NTP_CONTROL_HEADER_LEN + 2],
        resp[NTP_CONTROL_HEADER_LEN + 3],
    ]);
    let sel = peer_status >> 13;
    assert_eq!(sel, 6);
}

#[test]
fn build_mode6_readvar_system_includes_reftime_and_frequency() {
    let dp = DisciplineParams {
        ref_ts: 0xE9D1_E7B4_8A3D_71A0,
        current_ts: 0xE9D1_E7B5_0000_0000,
        ..dp(1, 0, 1 << 16, 100)
    };
    let req = control_request(MODE6_OPCODE_READVAR, 0);
    let resp = build_mode6_response(&req, 4, &dp, &metrics(500, 200, 1000, 5_321));
    let payload = payload_of(&resp);
    assert!(payload.contains("reftime=0x"));
    assert!(payload.contains("clock=0x"));
    assert!(payload.contains("frequency="));
    assert!(payload.contains("sys_jitter="));
    assert!(payload.contains("rootdelay=0.000"));
}

#[test]
fn build_mode6_readvar_peer_includes_dispersion_and_filter_vars() {
    let req = control_request(MODE6_OPCODE_READVAR, MODE6_ASSOC_ID);
    let resp = build_mode6_response(&req, 4, &dp(1, 0, 1 << 16, 500), &metrics(250, 100, 800, 3_000));
    let payload = payload_of(&resp);
    assert!(payload.contains("dispersion="));
    assert!(payload.contains("xleave="));
    assert!(payload.contains("filtdelay="));
    assert!(payload.contains("filtoffset="));
    assert!(payload.contains("filtdisp="));
}

#[test]
fn ntp_ts_to_mode6_formats_correctly() {
    let ts: u64 = 0xE9D1_E7B4_8A3D_71A0;
    assert_eq!(ntp_ts_to_mode6(ts), "0xE9D1E7B4.8A3D71A0");
}

#[test]
fn ntp_ts_to_mode6_zero_is_epoch() {
    assert_eq!(ntp_ts_to_mode6(0), "0x00000000.00000000");
}

#[test]
fn build_kod_response_has_stratum_0_and_rate_refid() {
    let mut req = [0_u8; NTP_PACKET_LEN];
    req[40..48].copy_from_slice(&0x1234_5678_ABCD_EF00_u64.to_be_bytes());
    let resp = build_kod_response(&req, 4);
    assert_eq!(resp[1], 0, "stratum should be 0");
    assert_eq!(&resp[12..16], b"RATE", "refid should be RATE");
    assert_eq!((resp[0] >> 6) & 0x03, 3, "LI should be 3 (alarm)");
    assert_eq!(resp[0] & 0x07, 4, "mode should be 4");
    assert_eq!(&resp[24..32], &req[40..48], "originate should echo client transmit ts");
}

#[test]
fn poll_sends_kod_when_client_polls_too_fast() {
    let mut server = new_server();
    gps(&mut server, 1_700_000_000);
    pps_now(&mut server, None);
    let req = client_ntp_request();
    let buf = poll(&mut server, &req, true).expect("response");
    assert_eq!(buf.len(), NTP_PACKET_LEN);
    assert_ne!(buf[1], 0, "first response should not be a kiss packet");
    let buf = poll(&mut server, &req, true).expect("response");
    assert_eq!(buf.len(), NTP_PACKET_LEN);
    assert_eq!(buf[1], 0, "second response should be stratum-0 KoD");
    assert_eq!(&buf[12..16], b"RATE", "KoD refid should be RATE");
    assert_eq!(server.rate_limited_total, 1);
}

#[test]
fn poll_sends_kod_when_symmetric_active_polls_too_fast() {
    let mut server = new_server();
    let mut req = [0_u8; NTP_PACKET_LEN];
    req[0] = (4 << 3) | 1;
    let buf = poll(&mut server, &req, true).expect("response");
    assert_eq!(buf.len(), NTP_PACKET_LEN);
    assert_ne!(buf[1], 0);
    let buf = poll(&mut server, &req, true).expect("response");
    assert_eq!(buf.len(), NTP_PACKET_LEN);
    assert_eq!(buf[1], 0);
    assert_eq!(&buf[12..16], b"RATE");
    assert_eq!(server.rate_limited_total, 1);
}

#[test]
fn poll_rate_limits_across_time_request_modes() {
    let mut server = new_server();
    let mode3 = client_ntp_request();
    let mut mode1 = [0_u8; NTP_PACKET_LEN];
    mode1[0] = (4 << 3) | 1;
    let buf = poll(&mut server, &mode3, true).expect("response");
    assert_eq!(buf.len(), NTP_PACKET_LEN);
    assert_ne!(buf[1], 0);
    let buf = poll(&mut server, &mode1, true).expect("response");
    assert_eq!(buf.len(), NTP_PACKET_LEN);
    assert_eq!(buf[1], 0);
    assert_eq!(&buf[12..16], b"RATE");
    assert_eq!(server.rate_limited_total, 1);
}

#[test]
fn poll_drops_packet_from_acl_blocked_source() {
    let mut server = new_server();
    server.set_acl(Acl::deny_all());
    assert!(poll(&mut server, &client_ntp_request(), true).is_none());
    assert_eq!(server.acl_blocked_total, 1);
}

#[test]
fn poll_allows_loopback_with_private_lan_acl() {
    let mut server = new_server();
    server.set_acl(Acl::private_lan());
    gps(&mut server, 1_700_000_000);
    pps_now(&mut server, None);
    let buf = poll(&mut server, &client_ntp_request(), true).expect("response");
    assert_eq!(buf.len(), NTP_PACKET_LEN);
    assert_eq!(server.acl_blocked_total, 0);
}

#[test]
fn poll_blocks_loopback_outside_configured_cidr() {
    let mut server = new_server();
    server.set_acl(Acl::from_config("192.168.1.0/24"));
    assert!(poll(&mut server, &client_ntp_request(), true).is_none());
    assert_eq!(server.acl_blocked_total, 1);
}

#[test]
fn poll_mode6_rate_limited_on_rapid_poll() {
    let mut server = new_server();
    let req = make_mode6_req(MODE6_OPCODE_READVAR, 0);
    let resp = poll(&mut server, &req, false).expect("response");
    assert!(resp.len() >= NTP_CONTROL_HEADER_LEN);
    assert!(poll(&mut server, &req, false).is_none());
    assert_eq!(server.rate_limited_total, 1);
}

#[test]
fn poll_mode6_allowed_again_after_rate_limit_window() {
    let mut server = new_server();
    let req = make_mode6_req(MODE6_OPCODE_READVAR, 0);
    assert!(poll(&mut server, &req, false).is_some());
    assert!(poll(&mut server, &req, false).is_none());
    server.rate_limiter.subtract_time(MIN_POLL_INTERVAL_US + 1);
    let resp = poll(&mut server, &req, false).expect("response");
    assert!(resp.len() >= NTP_CONTROL_HEADER_LEN);
}

#[test]
fn poll_kod_response_echoes_client_transmit_timestamp() {
    let mut server = new_server();
    gps(&mut server, 1_700_000_000);
    pps_now(&mut server, None);
    let mut req = client_ntp_request();
    let client_xmit: u64 = 0xDEAD_BEEF_CAFE_1234;
    req[40..48].copy_from_slice(&client_xmit.to_be_bytes());
    poll(&mut server, &req, true).expect("response");
    let buf = poll(&mut server, &req, true).expect("response");
    assert_eq!(buf.len(), NTP_PACKET_LEN);
    assert_eq!(buf[1], 0, "KoD stratum must be 0");
    assert_eq!(&buf[12..16], b"RATE", "KoD refid must be RATE");
    let originate = u64::from_be_bytes(buf[24..32].try_into().unwrap());
    assert_eq!(originate, client_xmit);
}

#[test]
fn poll_rate_limited_counter_visible_in_snapshot() {
    let mut server = new_server();
    gps(&mut server, 1_700_000_000);
    pps_now(&mut server, None);
    let req = client_ntp_request();
    poll(&mut server, &req, true).expect("response");
    poll(&mut server, &req, true).expect("response");
    let snap = server.ntp_snapshot(true, at(NOW_US));
    assert_eq!(snap.rate_limited, 1);
    assert_eq!(snap.served, 1);
}

#[test]
fn poll_client_allowed_again_after_rate_limit_window() {
    let mut server = new_server();
    gps(&mut server, 1_700_000_000);
    pps_now(&mut server, None);
    let req = client_ntp_request();
    poll(&mut server, &req, true).expect("response");
    let buf = poll(&mut server, &req, true).expect("response");
    assert_eq!(buf[1], 0, "second response should be KoD");
    server.rate_limiter.subtract_time(MIN_POLL_INTERVAL_US + 1);
    let buf = poll(&mut server, &req, true).expect("response");
    assert_eq!(buf.len(), NTP_PACKET_LEN);
    assert_ne!(buf[1], 0, "third response should be a normal NTP reply");
    assert_eq!(server.rate_limited_total, 1);
}

#[test]
fn set_leap_indicator_propagates_to_ntp_response() {
    let req = [0_u8; NTP_PACKET_LEN];
    let resp = build_response(&req, &dp(1, 1, 1 << 16, 100), 0);
    let li = (resp[0] >> 6) & 0x03;
    assert_eq!(li, 1);
}

#[test]
fn set_leap_indicator_clamped_to_2() {
    let mut server = new_server();
    server.set_leap_indicator(5);
    assert_eq!(server.pending_leap, 2);
}

#[test]
fn set_leap_indicator_0_clears_warning() {
    let mut server = new_server();
    server.set_leap_indicator(1);
    assert_eq!(server.pending_leap, 1);
    server.set_leap_indicator(0);
    assert_eq!(server.pending_leap, 0);
}

#[test]
fn discipline_params_uses_pending_leap_when_synced() {
    let mut server = new_server();
    gps(&mut server, 1_700_000_000);
    pps_now(&mut server, None);
    server.set_leap_indicator(1);
    assert_eq!(params(&server, true).leap, 1);
}

#[test]
fn discipline_params_overrides_pending_leap_with_alarm_when_unsynced() {
    let mut server = new_server();
    server.set_leap_indicator(1);
    assert_eq!(params(&server, false).leap, 3);
}

#[test]
fn ntp_snapshot_exposes_leap_indicator() {
    let mut server = new_server();
    gps(&mut server, 1_700_000_000);
    pps_now(&mut server, None);
    server.set_leap_indicator(2);
    assert_eq!(server.ntp_snapshot(true, at(NOW_US)).leap_indicator, 2);
}

#[test]
fn pps_outlier_rejected_after_servo_converged() {
    let mut server = new_server();
    gps(&mut server, 1_700_000_000);
    pps_now(&mut server, None);
    pps_now(&mut server, Some(1_000_100));
    let freq_before = freq_ppm(&server);
    pps_now(&mut server, Some(1_100_000));
    assert_eq!(server.pps_glitch_count, 1);
    assert!((freq_ppm(&server) - freq_before).abs() < 0.001);
}

#[test]
fn pps_outlier_not_applied_before_first_sample() {
    let mut server = new_server();
    gps(&mut server, 1_700_000_000);
    pps_now(&mut server, None);
    pps_now(&mut server, Some(1_049_999));
    assert_eq!(server.pps_glitch_count, 0);
    assert!(server.pps_has_sample);
}

#[test]
fn pps_outlier_does_not_update_last_pps_monotonic() {
    let mut server = new_server();
    gps(&mut server, 1_700_000_000);
    pps_now(&mut server, None);
    pps_now(&mut server, Some(1_000_100));
    let last_good = server.last_pps_monotonic_us;
    server.observe_pps_pulse(Some(1_100_000), NOW_US + 1_100_000, at(NOW_US + 1_100_000));
    assert_eq!(server.last_pps_monotonic_us, last_good);
}

#[test]
fn first_pps_pulse_skipped_when_gps_time_is_stale() {
    let mut server = new_server();
    server.last_gps_utc_seconds = Some(1_700_000_000);
    server.last_gps_utc_update_us = Some(NOW_US - 2 * GPS_STALE_THRESHOLD_US);
    pps_now(&mut server, None);
    assert!(server.clock_anchor.is_none());
}

#[test]
fn first_pps_pulse_anchors_with_fresh_gps() {
    let mut server = new_server();
    gps(&mut server, 1_700_000_000);
    pps_now(&mut server, None);
    assert!(server.clock_anchor.is_some());
}

#[test]
fn glitch_count_exposed_in_ntp_snapshot() {
    let mut server = new_server();
    gps(&mut server, 1_700_000_000);
    pps_now(&mut server, None);
    pps_now(&mut server, Some(1_000_100));
    pps_now(&mut server, Some(1_100_000));
    assert_eq!(server.ntp_snapshot(true, at(NOW_US)).pps_glitch_count, 1);
}

#[test]
fn ntp_epoch_offset_matches_rfc868_definition() {
    assert_eq!(NTP_UNIX_EPOCH_OFFSET_SECS, 2_208_988_800_u64);
}

#[test]
fn ntp_fraction_half_second_encodes_correctly() {
    let mut server = new_server();
    server.clock_anchor =
        Some(ClockAnchor { unix_seconds: 1_700_000_000, monotonic_us: NOW_US - 500_000 });
    server.freq_ppb = 0;
    let ts = server.current_ntp_timestamp(at(NOW_US));
    let frac_us = (ts & 0xFFFF_FFFF) * 1_000_000 / (1u64 << 32);
    assert!((500_000..600_000).contains(&frac_us));
    assert_eq!(ts & 0xFFFF_FFFF, 0x8000_0000);
}

#[test]
fn ntp_fraction_quarter_second_encodes_correctly() {
    let mut server = new_server();
    server.clock_anchor =
        Some(ClockAnchor { unix_seconds: 1_700_000_000, monotonic_us: NOW_US - 250_000 });
    server.freq_ppb = 0;
    let ts = server.current_ntp_timestamp(at(NOW_US));
    let frac_us = (ts & 0xFFFF_FFFF) * 1_000_000 / (1u64 << 32);
    assert!((250_000..350_000).contains(&frac_us));
    assert_eq!(ts & 0xFFFF_FFFF, 0x4000_0000);
}

#[test]
fn ntp_frequency_correction_compensates_fast_clock() {
    let anchor = ClockAnchor { unix_seconds: 1_700_000_000, monotonic_us: NOW_US - 500_000 };
    let mut server_uncorrected = new_server();
    server_uncorrected.clock_anchor = Some(anchor);
    server_uncorrected.freq_ppb = 0;
    let ts_uncorrected = server_uncorrected.current_ntp_timestamp(at(NOW_US));
    let mut server_fast = new_server();
    server_fast.clock_anchor = Some(anchor);
    server_fast.freq_ppb = 50_000_000;
    let ts_fast = server_fast.current_ntp_timestamp(at(NOW_US));
    assert!(ts_fast < ts_uncorrected);
}

#[test]
fn ntp_timestamp_seconds_field_reflects_anchor_unix_epoch() {
    let mut server = new_server();
    let unix_sec: i64 = 1_700_000_100;
    server.clock_anchor = Some(ClockAnchor { unix_seconds: unix_sec, monotonic_us: NOW_US });
    server.freq_ppb = 0;
    let ts = server.current_ntp_timestamp(at(NOW_US));
    assert_eq!(ts >> 32, unix_sec as u64 + NTP_UNIX_EPOCH_OFFSET_SECS);
}

#[test]
fn ntp_snapshot_state_locked_with_gps_fix_and_fresh_pps() {
    let mut server = new_server();
    gps(&mut server, 1_700_000_000);
    pps_now(&mut server, None);
    let snap = server.ntp_snapshot(true, at(NOW_US));
    assert_eq!(snap.state, DisciplineState::Locked);
    assert_eq!(snap.stratum, 1);
}

#[test]
fn ntp_snapshot_state_holdover_when_gps_fix_lost() {
    let mut server = new_server();
    gps(&mut server, 1_700_000_000);
    pps_now(&mut server, None);
    assert_eq!(server.ntp_snapshot(false, at(NOW_US)).state, DisciplineState::Holdover);
}

#[test]
fn ntp_snapshot_state_holdover_when_pps_becomes_stale() {
    let mut server = new_server();
    gps(&mut server, 1_700_000_000);
    pps_stale_ago(&mut server, None, HOLDOVER_ENTRY_US + 1_000_000);
    assert_eq!(server.ntp_snapshot(true, at(NOW_US)).state, DisciplineState::Holdover);
}

#[test]
fn ntp_snapshot_state_unsync_without_any_anchor() {
    let server = new_server();
    assert_eq!(server.ntp_snapshot(false, at(NOW_US)).state, DisciplineState::Unsync);
}

#[test]
fn sync_state_full_cycle() {
    let mut server = new_server();
    assert_eq!(server.ntp_snapshot(false, at(NOW_US)).state, DisciplineState::Unsync);
    gps(&mut server, 1_700_000_000);
    pps_now(&mut server, None);
    assert_eq!(server.ntp_snapshot(true, at(NOW_US)).state, DisciplineState::Locked);
    assert_eq!(server.ntp_snapshot(false, at(NOW_US)).state, DisciplineState::Holdover);
    assert_eq!(server.ntp_snapshot(true, at(NOW_US)).state, DisciplineState::Locked);
    pps_stale_ago(&mut server, None, HOLDOVER_ENTRY_US + 1_000_000);
    assert_eq!(server.ntp_snapshot(true, at(NOW_US)).state, DisciplineState::Holdover);
    pps_now(&mut server, Some(1_000_000));
    assert_eq!(server.ntp_snapshot(true, at(NOW_US)).state, DisciplineState::Locked);
}

#[test]
fn build_mode6_response_length_is_multiple_of_4() {
    let req = make_mode6_req(MODE6_OPCODE_READVAR, 0);
    let resp = build_mode6_response(&req, 4, &synced_dp(), &metrics(0, 1, 1, 0));
    assert_eq!(resp.len() % 4, 0);
}

#[test]
fn build_mode6_padding_bytes_are_zero() {
    let req = make_mode6_req(MODE6_OPCODE_READVAR, 0);
    let resp = build_mode6_response(&req, 4, &synced_dp(), &metrics(0, 1, 1, 0));
    let count = u16::from_be_bytes([resp[10], resp[11]]) as usize;
    let payload_end = NTP_CONTROL_HEADER_LEN + count;
    for (i, &b) in resp[payload_end..].iter().enumerate() {
        assert_eq!(b, 0, "padding byte at index {i} should be zero");
    }
}

#[test]
fn build_mode6_response_bit_set_in_byte_1() {
    for opcode in [MODE6_OPCODE_READSTAT, MODE6_OPCODE_READVAR] {
        let req = make_mode6_req(opcode, 0);
        let resp = build_mode6_response(&req, 4, &synced_dp(), &metrics(0, 1, 1, 0));
        assert_ne!(resp[1] & 0x80, 0, "response bit not set for opcode {opcode}");
    }
}

#[test]
fn build_mode6_unknown_assoc_id_returns_header_only() {
    let req = make_mode6_req(MODE6_OPCODE_READVAR, 99);
    let resp = build_mode6_response(&req, 4, &synced_dp(), &metrics(0, 1, 1, 0));
    let count = u16::from_be_bytes([resp[10], resp[11]]);
    assert_eq!(count, 0);
    assert_eq!(resp.len(), NTP_CONTROL_HEADER_LEN);
}

#[test]
fn build_response_originate_echoes_client_transmit() {
    let mut req = [0_u8; NTP_PACKET_LEN];
    let client_xmit: u64 = 0xDEAD_BEEF_1234_5678;
    req[40..48].copy_from_slice(&client_xmit.to_be_bytes());
    let resp = build_response(&req, &dp(1, 0, 0, 0), 0);
    let originate = u64::from_be_bytes(resp[24..32].try_into().unwrap());
    assert_eq!(originate, client_xmit);
}

#[test]
fn build_response_version_mirrors_client_v3() {
    let mut req = [0_u8; NTP_PACKET_LEN];
    req[0] = (3 << 3) | 3;
    let resp = build_response(&req, &dp(1, 0, 0, 0), 0);
    let vn = (resp[0] >> 3) & 0x07;
    assert_eq!(vn, 3);
}

#[test]
fn holdover_dispersion_has_exact_figures() {
    let mut server = new_server();
    gps(&mut server, 1_700_000_000);
    pps_stale_ago(&mut server, None, HOLDOVER_ENTRY_US + 60 * MICROS_PER_SEC);
    let dp = params(&server, true);
    assert_eq!(dp.root_disp_us, BASE_DISP_US as u32 + 60 * 500);
    assert_eq!(dp.root_disp_short, (31_000u64 * 65_536 / 1_000_000) as u32);
}

#[test]
fn holdover_window_is_1998_seconds() {
    for (seconds, stratum) in [(1_997, 1), (1_998, 16)] {
        let mut server = new_server();
        gps(&mut server, 1_700_000_000);
        pps_stale_ago(&mut server, None, HOLDOVER_ENTRY_US + seconds * MICROS_PER_SEC);
        assert_eq!(params(&server, true).stratum, stratum);
    }
}

#[test]
fn jitter_is_smoothed_by_a_fifth() {
    let mut server = new_server();
    gps(&mut server, 1_700_000_000);
    pps_now(&mut server, None);
    pps_now(&mut server, Some(1_000_250));
    assert_eq!(server.pps_jitter_ps, 250 * PICOS as u64);
    pps_now(&mut server, Some(1_000_500));
    assert_eq!(server.pps_jitter_ps, 300 * PICOS as u64);
    assert_eq!(server.freq_ppb, 7_500);
}

#[test]
fn rejected_pulse_changes_nothing_but_the_count() {
    let mut server = new_server();
    gps(&mut server, 1_700_000_000);
    pps_now(&mut server, None);
    pps_now(&mut server, Some(1_000_100));
    let (anchor, jitter, sync) =
        (server.clock_anchor, server.pps_jitter_ps, server.last_sync_ntp_ts);
    pps_now(&mut server, Some(1_050_001));
    assert_eq!(server.clock_anchor, anchor);
    assert_eq!(server.pps_jitter_ps, jitter);
    assert_eq!(server.last_sync_ntp_ts, sync);
    assert_eq!(server.pps_glitch_count, 1);
    pps_now(&mut server, Some(799_999));
    assert_eq!(server.pps_glitch_count, 1);
}

#[test]
fn consistent_utc_keeps_the_anchor() {
    let mut server = new_server();
    gps(&mut server, 1_700_000_000);
    let anchor = server.clock_anchor;
    server.update_gps_utc_seconds(1_700_000_006, NOW_US + 5_000_000);
    assert_eq!(server.clock_anchor, anchor);
    server.update_gps_utc_seconds(1_700_000_007, NOW_US + 5_000_000);
    assert_eq!(
        server.clock_anchor,
        Some(ClockAnchor { unix_seconds: 1_700_000_007, monotonic_us: NOW_US + 5_000_000 })
    );
}

#[test]
fn a_tenth_of_the_phase_error_leaves_the_anchor() {
    let mut server = new_server();
    gps(&mut server, 1_700_000_000);
    pps_now(&mut server, None);
    pps_now(&mut server, Some(1_000_105));
    assert_eq!(
        server.clock_anchor,
        Some(ClockAnchor { unix_seconds: 1_700_000_002, monotonic_us: NOW_US - 10 })
    );
    pps_now(&mut server, Some(999_895));
    assert_eq!(
        server.clock_anchor,
        Some(ClockAnchor { unix_seconds: 1_700_000_003, monotonic_us: NOW_US + 10 })
    );
}

#[test]
fn frequency_correction_has_exact_figures() {
    let mut server = new_server();
    server.clock_anchor = Some(ClockAnchor { unix_seconds: 100, monotonic_us: 0 });
    server.freq_ppb = 500_000;
    assert_eq!(server.current_utc_unix_seconds(2_000_000_000), Some(2_099));
    server.freq_ppb = 0;
    assert_eq!(server.current_utc_unix_seconds(2_000_000_000), Some(2_100));
    assert_eq!(server.current_utc_unix_seconds(0), Some(100));
    assert_eq!(new_server().current_utc_unix_seconds(0), None);
}

#[test]
fn timestamp_without_anchor_is_that_of_the_wall_clock() {
    let server = new_server();
    let reading = ClockReading { monotonic_us: 5, unix_seconds: 1_700_000_000, unix_nanos: 500_000_000 };
    let ts = server.current_ntp_timestamp(reading);
    assert_eq!(ts >> 32, 1_700_000_000 + 2_208_988_800);
    assert_eq!(ts & 0xFFFF_FFFF, 0x8000_0000);
}

#[test]
fn wall_clock_is_read_in_this_century() {
    let reading = read_clock(7);
    assert_eq!(reading.monotonic_us, 7);
    assert!(reading.unix_seconds > 1_600_000_000);
    assert!(reading.unix_nanos < 1_000_000_000);
    let seconds = (ntp_timestamp_now() >> 32) - 2_208_988_800;
    assert!(seconds >= reading.unix_seconds);
}

#[test]
fn wall_clock_before_the_epoch_reads_as_the_epoch() {
    let before = reading_from(None, 7);
    assert_eq!(before, ClockReading { monotonic_us: 7, unix_seconds: 0, unix_nanos: 0 });
    assert_eq!(ntp_timestamp_from_wall(before), 2_208_988_800 << 32);
    let after = reading_from(Some((1_700_000_000, 250_000_000)), 7);
    assert_eq!(ntp_timestamp_from_wall(after) >> 32, 1_700_000_000 + 2_208_988_800);
    assert_eq!(ntp_timestamp_from_wall(after) & 0xFFFF_FFFF, 0x4000_0000);
}

#[test]
fn holdover_ends_at_a_second_of_dispersion() {
    let mut server = new_server();
    gps(&mut server, 1_700_000_000);
    pps_now(&mut server, None);
    let last = server.ntp_snapshot(false, at(NOW_US + 2_007_999_999));
    assert_eq!((last.state, last.stratum), (DisciplineState::Holdover, 1));
    let over = server.ntp_snapshot(false, at(NOW_US + 2_008_000_000));
    assert_eq!((over.state, over.stratum), (DisciplineState::Unsync, 16));
    assert_eq!(over.root_disp_us, 1_000_000);
    let long = server.ntp_snapshot(true, at(NOW_US + 20_000_000_000));
    assert_eq!((long.state, long.stratum), (DisciplineState::Unsync, 16));
    assert_eq!(long.root_disp_us, 2_000_000);
}

#[test]
fn pulse_far_ahead_has_no_dispersion() {
    let mut server = new_server();
    gps(&mut server, 1_700_000_000);
    pps_now(&mut server, None);
    server.pps_has_sample = false;
    server.last_pps_monotonic_us = Some(NOW_US + 6_000_000);
    assert!(server.has_dispersion(true, NOW_US));
    server.last_pps_monotonic_us = Some(NOW_US + 7_000_000);
    assert!(!server.has_dispersion(true, NOW_US));
    assert!(server.has_dispersion(false, NOW_US));
    assert!(server.has_dispersion(true, NOW_US + 7_000_000));
}

#[test]
fn server_tells_what_it_would_answer() {
    let mut server = new_server();
    let mut request = [0_u8; NTP_PACKET_LEN];
    request[0] = 0x23;
    assert!(server.answers(&request, Some(LOOPBACK), NOW_US));
    assert!(!server.answers(&request[..47], Some(LOOPBACK), NOW_US));
    assert!(!server.answers(&[], None, NOW_US));
    server.handle_packet(&request, Some(LOOPBACK), false, at(NOW_US), at(NOW_US));
    assert!(!server.answers(&request, Some(LOOPBACK), NOW_US));
    assert!(server.answers(&request, None, NOW_US));
    server.set_acl(Acl::deny_all());
    assert!(!server.answers(&request, Some(1), NOW_US));
    assert!(server.answers(&make_mode6_req(MODE6_OPCODE_READVAR, 0), None, NOW_US));
}

#[test]
fn control_message_spells_leap_in_two_binary_digits() {
    for (stratum, leap, text) in [(1, 0, "leap=00"), (1, 1, "leap=01"), (1, 2, "leap=10"), (16, 3, "leap=11")] {
        let req = make_mode6_req(MODE6_OPCODE_READVAR, 0);
        let resp = build_mode6_response(&req, 4, &dp(stratum, leap, 0, 0), &metrics(0, 0, 0, 0));
        assert!(payload_of(&resp).contains(text));
    }
}

#[test]
fn control_message_rounds_the_quotient_in_double_precision() {
    let req = make_mode6_req(MODE6_OPCODE_READVAR, 0);
    for (jitter_ps, text) in [
        (2_500_000, ",sys_jitter=0.003,"),
        (4_500_000, ",sys_jitter=0.004,"),
        (1_234_500_000, ",sys_jitter=1.234,"),
        (400_000, ",sys_jitter=0.001,"),
    ] {
        let servo = ServoMetrics { pps_jitter_ps: jitter_ps, ..metrics(0, 0, 0, 0) };
        let resp = build_mode6_response(&req, 4, &synced_dp(), &servo);
        assert!(payload_of(&resp).contains(text), "{}", payload_of(&resp));
    }
}

#[test]
fn control_message_echoes_request() {
    let mut req = make_mode6_req(MODE6_OPCODE_READVAR, 99);
    req[2] = 0xAB;
    req[3] = 0xCD;
    let resp = build_mode6_response(&req, 3, &synced_dp(), &metrics(0, 0, 0, 0));
    assert_eq!(resp[2..4], req[2..4]);
    assert_eq!(resp[6..8], req[6..8]);
    assert_eq!((resp[0] >> 3) & 7, 3);
    assert_eq!(resp[0] & 7, 6);
}

#[test]
fn packets_without_ipv4_source_are_not_limited() {
    let mut server = new_server();
    server.set_acl(Acl::deny_all());
    for _ in 0..3 {
        let action = server.handle_packet(&client_ntp_request(), None, false, at(NOW_US), at(NOW_US));
        assert!(matches!(action, PacketAction::SendTime(_)));
    }
    assert_eq!(server.rate_limited_total, 0);
}

#[test]
fn empty_packet_is_ignored() {
    let mut server = new_server();
    assert!(poll(&mut server, &[], true).is_none());
    assert_eq!(server.acl_blocked_total, 0);
}

#[test]
fn processing_delay_is_a_microsecond_at_least() {
    let mut server = new_server();
    server.time_sent(10, 10);
    assert_eq!(server.proc_delay_ps, PICOS);
    server.time_sent(10, 21);
    assert_eq!(server.proc_delay_ps, 3 * PICOS);
    assert_eq!(server.served, 2);
}

#[test]
fn transmit_timestamp_is_put_in_last() {
    let mut resp = build_response(&client_ntp_request(), &synced_dp(), 7);
    stamp_transmit(&mut resp, 0x0102_0304_0506_0708);
    assert_eq!(resp[40..48], [1, 2, 3, 4, 5, 6, 7, 8]);
    assert_eq!(resp[32..40], [0, 0, 0, 0, 0, 0, 0, 7]);
}
