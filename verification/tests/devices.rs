use core::sync::atomic::Ordering;
use rust_gps_ntp::battery::{
    decode_lc709203_percent, decode_lc709203_voltage_mv, decode_max17048_soc,
    decode_max17048_vcell, gauge_registers, read_battery, BatteryDevice, BatteryMonitor,
    BatterySnapshot, VOLT_Q37,
};
use rust_gps_ntp::pins::{PinError, PinPool, PinRegistry};
use rust_gps_ntp::pps::{pps_delta_us, PpsEvent, PpsMonitor, PpsPollState};
use rust_gps_ntp::rtc::{
    bcd_to_dec, control_running, control_stopped, datetime_to_unix_seconds, dec_to_bcd,
    decode_datetime_regs, encode_datetime_regs, local_date_time_from_utc, unix_seconds_from_regs,
    unix_seconds_to_datetime, write_message, RtcDateTime, RtcDevice, RtcProbe, RtcReadError,
};
use rust_gps_ntp::storage::{card_capacity_bytes, is_ready, try_mount, MountStep, StorageStatus};
use rust_gps_ntp::wifi::{
    auth_choice, compile_time_ssid, load_wifi_credentials_from_env, write_address, AuthChoice,
    MissingCredentials, NetworkSnapshot, WifiCredentials,
};

const JUNE_7: RtcDateTime =
    RtcDateTime { year: 2024, month: 6, day: 7, hour: 14, minute: 30, second: 45 };

#[test]
fn decode_max17048_vcell_known_value() {
    let volts = decode_max17048_vcell([0x98, 0x00]) as f64 / VOLT_Q37 as f64;
    assert!((volts - 3.04).abs() < 0.001);
}

#[test]
fn decode_max17048_soc_whole_and_fraction() {
    let percent = decode_max17048_soc([75, 128]) as f64 / 256.0;
    assert!((percent - 75.5).abs() < 0.01);
}

#[test]
fn decode_lc709203_registers() {
    assert_eq!(decode_lc709203_voltage_mv([0x10, 0x0E]) as f32, 3600.0);
    assert_eq!(decode_lc709203_percent([100, 0]) as f32, 100.0);
}

#[test]
fn gauges_read_the_same_units() {
    assert_eq!(
        read_battery(BatteryMonitor::Max17048, [0xD0, 0x00], [99, 64]),
        BatterySnapshot { voltage_q37: 571_746_025_472, percent_256: 99 * 256 + 64 }
    );
    assert_eq!(
        read_battery(BatteryMonitor::Lc709203, [0x10, 0x0E], [100, 0]),
        BatterySnapshot { voltage_q37: 494_780_219_392, percent_256: 25_600 }
    );
}

#[test]
fn voltages_are_those_of_single_precision() {
    for raw in 0..=u16::MAX {
        let max = read_battery(BatteryMonitor::Max17048, raw.to_be_bytes(), [0, 0]).voltage_q37;
        assert_eq!(max as f64 / VOLT_Q37 as f64, (raw as f32 * 78.125e-6) as f64);
        let lc = read_battery(BatteryMonitor::Lc709203, raw.to_le_bytes(), [0, 0]).voltage_q37;
        assert_eq!(lc as f64 / VOLT_Q37 as f64, (raw as f32 / 1000.0) as f64);
    }
}

#[test]
fn first_gauge_that_answers_is_used() {
    assert_eq!(BatteryDevice::detect(true, true).monitor, Some(BatteryMonitor::Max17048));
    assert_eq!(BatteryDevice::detect(false, true).monitor, Some(BatteryMonitor::Lc709203));
    assert_eq!(BatteryDevice::detect(false, false).monitor, None);
    assert_eq!(gauge_registers(BatteryMonitor::Max17048), (0x36, 0x02, 0x04));
    assert_eq!(gauge_registers(BatteryMonitor::Lc709203), (0x0B, 0x09, 0x0D));
}

#[test]
fn claim_and_release_pin() {
    let mut registry = PinRegistry::new();
    registry.claim(12, "pps").unwrap();
    assert_eq!(
        registry.claim(12, "display"),
        Err(PinError::AlreadyInUse { pin: 12, owner: "pps" })
    );
    registry.release(12);
    registry.claim(12, "display").unwrap();
    assert_eq!(registry.owner(12), Some("display"));
}

#[test]
fn pins_that_do_not_exist_are_not_available() {
    let mut registry = PinRegistry::default();
    assert_eq!(registry.claim(49, "x"), Err(PinError::NotAvailable { pin: 49 }));
    assert_eq!(registry.claim(-1, "x"), Err(PinError::NotAvailable { pin: -1 }));
    assert_eq!(registry.owner(49), None);
    registry.release(49);
}

#[test]
fn pin_is_handed_out_once() {
    let mut pool = PinPool::from_board_pins();
    assert_eq!(pool.take_gpio12("pps"), Ok(()));
    assert_eq!(pool.take_gpio12("gps"), Err(PinError::AlreadyInUse { pin: 12, owner: "pps" }));
    pool.release(12);
    assert_eq!(pool.registry().owner(12), None);
    assert_eq!(pool.take_gpio12("gps"), Err(PinError::NotAvailable { pin: 12 }));
    assert_eq!(pool.registry().owner(12), None);
    assert_eq!(pool.take_gpio45("display"), Ok(()));
}

#[test]
fn pin_errors_have_messages() {
    assert_eq!(
        PinError::AlreadyInUse { pin: 12, owner: "pps" }.message(),
        "GPIO12 already allocated by pps"
    );
    assert_eq!(PinError::NotAvailable { pin: -3 }.message(), "GPIO-3 not available on this board");
}

#[test]
fn pps_monitor_default_matches_new() {
    assert_eq!(PpsMonitor::default().count().load(Ordering::Relaxed), 0);
}

#[test]
fn new_monitor_starts_at_zero() {
    let monitor = PpsMonitor::new();
    assert_eq!(monitor.edge_us().load(Ordering::Relaxed), 0);
    assert_eq!(monitor.count().load(Ordering::Relaxed), 0);
    assert_eq!(monitor.poll(&mut PpsPollState::default()), None);
}

#[test]
fn pps_delta_one_second_apart() {
    assert_eq!(pps_delta_us(2_000_000, 1_000_000), 1_000_000);
}

#[test]
fn pps_delta_survives_u64_wraparound() {
    let prev = u64::MAX - 999_999;
    let curr = 0;
    assert_eq!(pps_delta_us(curr, prev), 1_000_000);
}

#[test]
fn poll_emits_first_then_delta() {
    let monitor = PpsMonitor::new();
    let edge = monitor.edge_us();
    let count = monitor.count();
    let mut state = PpsPollState::default();

    PpsMonitor::record_edge(&edge, &count, 1_000_000);
    assert_eq!(monitor.poll(&mut state), Some(PpsEvent::First { edge_us: 1_000_000 }));

    PpsMonitor::record_edge(&edge, &count, 2_001_000);
    assert_eq!(
        monitor.poll(&mut state),
        Some(PpsEvent::Delta { interval_us: 1_001_000, edge_us: 2_001_000 })
    );
    assert_eq!(state.pulse_count(), 2);
    assert_eq!(monitor.poll(&mut state), None);
}

#[test]
fn edge_at_time_zero_is_the_first_one() {
    let monitor = PpsMonitor::new();
    let mut state = PpsPollState::default();
    PpsMonitor::record_edge(&monitor.edge_us(), &monitor.count(), 0);
    assert_eq!(monitor.poll(&mut state), Some(PpsEvent::First { edge_us: 0 }));
    PpsMonitor::record_edge(&monitor.edge_us(), &monitor.count(), 1_000_000);
    assert_eq!(
        monitor.poll(&mut state),
        Some(PpsEvent::Delta { interval_us: 1_000_000, edge_us: 1_000_000 })
    );
}

#[test]
fn handles_share_the_cells() {
    let monitor = PpsMonitor::new();
    monitor.count().store(7, Ordering::Relaxed);
    monitor.edge_us().store(9, Ordering::Relaxed);
    assert_eq!(monitor.count().load(Ordering::Relaxed), 7);
    assert_eq!(monitor.edge_us().load(Ordering::Relaxed), 9);
}

#[test]
fn bcd_round_trip() {
    assert_eq!(bcd_to_dec(0x59), 59);
    assert_eq!(dec_to_bcd(59), 0x59);
}

#[test]
fn decode_valid_rtc_regs() {
    let regs = [0x45, 0x30, 0x14, 0x07, 0x06, 0x05, 0x24];
    let dt = decode_datetime_regs(regs).expect("valid regs");
    assert_eq!(dt.year, 2024);
    assert_eq!(dt.month, 6);
    assert_eq!(dt.day, 7);
    assert_eq!(dt.hour, 14);
    assert_eq!(dt.minute, 30);
    assert_eq!(dt.second, 45);
}

#[test]
fn decode_rejects_os_stop_bit() {
    let regs = [0xC5, 0x30, 0x14, 0x07, 0x06, 0x05, 0x24];
    assert!(decode_datetime_regs(regs).is_none());
}

#[test]
fn decode_rejects_pre_2020() {
    let regs = [0x00, 0x00, 0x00, 0x01, 0x01, 0x01, 0x19];
    assert!(decode_datetime_regs(regs).is_none());
}

#[test]
fn unix_round_trip() {
    let unix = datetime_to_unix_seconds(JUNE_7).expect("valid datetime");
    let back = unix_seconds_to_datetime(unix).expect("valid unix");
    assert_eq!(back, JUNE_7);
}

#[test]
fn local_date_time_applies_tz_offset() {
    let unix = datetime_to_unix_seconds(JUNE_7).expect("valid datetime");
    let (date, time) = local_date_time_from_utc(unix, -5).expect("valid offset");
    assert_eq!(date, "2024-06-07");
    assert_eq!(time, "09:30:45");
}

#[test]
fn registers_for_a_date() {
    assert_eq!(encode_datetime_regs(JUNE_7), [0x45, 0x30, 0x14, 0x07, 0x06, 0x01, 0x24]);
    assert_eq!(
        write_message(1_717_770_645),
        Some([0x03, 0x45, 0x30, 0x14, 0x07, 0x06, 0x01, 0x24])
    );
    assert_eq!(write_message(i64::MAX), None);
}

#[test]
fn registers_read_back() {
    assert_eq!(decode_datetime_regs(encode_datetime_regs(JUNE_7)), Some(JUNE_7));
    let end_of_2099 =
        RtcDateTime { year: 2099, month: 12, day: 31, hour: 23, minute: 59, second: 59 };
    assert_eq!(decode_datetime_regs(encode_datetime_regs(end_of_2099)), Some(end_of_2099));
}

#[test]
fn written_instant_reads_back() {
    let message = write_message(1_717_770_645).expect("within the calendar");
    let mut regs = [0u8; 7];
    regs.copy_from_slice(&message[1..]);
    assert_eq!(unix_seconds_from_regs(regs), Ok(1_717_770_645));
}

#[test]
fn clock_that_gives_no_time() {
    assert_eq!(
        unix_seconds_from_regs([0x80, 0, 0, 1, 1, 0, 0x24]),
        Err(RtcReadError::InvalidRegisters)
    );
    assert_eq!(
        unix_seconds_from_regs([0, 0, 0, 0x30, 0x02, 0, 0x24]),
        Err(RtcReadError::InvalidDate)
    );
    assert_eq!(unix_seconds_from_regs([0, 0, 0, 0x01, 0x01, 0, 0x24]), Ok(1_704_067_200));
}

#[test]
fn clock_at_start_up() {
    let regs = [0, 0, 0, 0x01, 0x01, 0, 0x24];
    assert_eq!(
        RtcDevice::init(RtcProbe::Present, Some(regs)),
        RtcDevice { present: true, boot_utc: Some(1_704_067_200) }
    );
    assert_eq!(
        RtcDevice::init(RtcProbe::Absent, Some(regs)),
        RtcDevice { present: false, boot_utc: None }
    );
    assert_eq!(
        RtcDevice::init(RtcProbe::Present, None),
        RtcDevice { present: true, boot_utc: None }
    );
}

#[test]
fn clock_stops_and_runs() {
    assert_eq!(control_stopped(0x03), 0x23);
    assert_eq!(control_running(0x23), 0x03);
}

#[test]
fn dates_outside_the_calendar() {
    assert_eq!(unix_seconds_to_datetime(i64::MAX), None);
    assert_eq!(local_date_time_from_utc(i64::MIN, 0), None);
    assert_eq!(datetime_to_unix_seconds(RtcDateTime { day: 31, ..JUNE_7 }), None);
    assert_eq!(datetime_to_unix_seconds(RtcDateTime { hour: 24, ..JUNE_7 }), None);
}

#[test]
fn years_in_local_dates() {
    let (date, time) = local_date_time_from_utc(-62_198_755_200, 0).expect("year -1");
    assert_eq!(date, "-001-01-01");
    assert_eq!(time, "00:00:00");
    let (date, _) = local_date_time_from_utc(-62_135_596_800, 0).expect("year 1");
    assert_eq!(date, "0001-01-01");
}

#[test]
fn storage_status_follows_the_mount() {
    let before = StorageStatus { mounted: true, total_bytes: 10, free_bytes: 4 };
    assert_eq!(StorageStatus::refresh(false, Some((1, 1)), before), StorageStatus::default());
    assert_eq!(
        StorageStatus::refresh(true, Some((20, 5)), before),
        StorageStatus { mounted: true, total_bytes: 20, free_bytes: 5 }
    );
    assert_eq!(StorageStatus::refresh(true, None, before), before);
}

#[test]
fn mounting_the_card() {
    assert_eq!(
        try_mount(MountStep::Mounted, 64, None),
        StorageStatus { mounted: true, total_bytes: 64, free_bytes: 0 }
    );
    assert_eq!(
        try_mount(MountStep::Mounted, 64, Some((60, 50))),
        StorageStatus { mounted: true, total_bytes: 60, free_bytes: 50 }
    );
    for step in
        [MountStep::HostFailed, MountStep::CardFailed, MountStep::FatFailed, MountStep::MountFailed]
    {
        assert_eq!(try_mount(step, 64, Some((60, 50))), StorageStatus::default());
    }
    assert_eq!(card_capacity_bytes(1_000, 512), 512_000);
    assert_eq!(card_capacity_bytes(u64::MAX, 512), u64::MAX);
    assert!(is_ready(true, true));
    assert!(!is_ready(true, false));
    assert!(!is_ready(false, true));
}

#[test]
fn credentials_need_both_settings() {
    let creds = load_wifi_credentials_from_env(Some(" home "), Some("pw\n")).expect("both set");
    assert_eq!((creds.ssid.as_str(), creds.pass.as_str()), ("home", "pw"));
    assert_eq!(auth_choice(&creds), AuthChoice::Wpa2Personal);
    for (ssid, pass) in [(None, Some("pw")), (Some("home"), None), (Some("  "), Some("pw")), (Some("home"), Some(""))] {
        assert_eq!(load_wifi_credentials_from_env(ssid, pass).err(), Some(MissingCredentials));
    }
    let open = WifiCredentials { ssid: "cafe".to_owned(), pass: String::new() };
    assert_eq!(auth_choice(&open), AuthChoice::Open);
}

#[test]
fn network_page_without_addresses() {
    let snap = NetworkSnapshot::read("clock", None, None);
    assert_eq!(snap.ip, "n/a");
    assert_eq!(snap.gateway, "n/a");
    assert_eq!(snap.hostname, "clock");
    assert_eq!(snap.ssid, "n/a");
    assert_eq!(compile_time_ssid(Some(" home ")), "home");
}

#[test]
fn addresses_are_written_lowest_byte_first() {
    assert_eq!(write_address(0x0101_A8C0), "192.168.1.1");
    let snap = NetworkSnapshot::read("clock", Some("home"), Some((0x0A01_A8C0, 0x0101_A8C0)));
    assert_eq!(snap.ip, "192.168.1.10");
    assert_eq!(snap.gateway, "192.168.1.1");
}
