use rust_gps_ntp::battery::{read_battery, BatteryMonitor};
use rust_gps_ntp::display::{
    backlight_off_state, backlight_on_state, line_y, make_panel, pps_offset_label, Backlight,
    DisplayDevice, Page, ScreenData,
};
use rust_gps_ntp::figures::{format_human_bytes, format_unsigned_us};
use rust_gps_ntp::gps::{GpsSnapshot, ZoneSettings};
use rust_gps_ntp::ntp::{DisciplineState, NtpSnapshot};
use rust_gps_ntp::pins::{PinError, PinPool};
use rust_gps_ntp::rtc::RtcSnapshot;
use rust_gps_ntp::storage::StorageStatus;
use rust_gps_ntp::ui_task::{rtc_sample, ScreenActions, SensorActions, UiFeed, UiState};
use rust_gps_ntp::wifi::NetworkSnapshot;

fn screen() -> ScreenData {
    ScreenData {
        gps: GpsSnapshot {
            local_date: "2026-06-01".to_owned(),
            local_time: "07:00:00".to_owned(),
            tz_offset_hours: -5,
            utc_unix_seconds: Some(1_780_315_200),
            lat_bits: 38.5_f32.to_bits(),
            lon_bits: (-90.25_f32).to_bits(),
            fix: true,
            sats: 8,
            altitude_bits: None,
        },
        lat: "38.500000".to_owned(),
        lon: "-90.250000".to_owned(),
        altitude: Some("545.4".to_owned()),
        zones: ZoneSettings::new(Some("America/Chicago".to_owned())),
        battery: read_battery(BatteryMonitor::Max17048, [0xC7, 0xFA], [99, 64]),
        pps_delta_us: 1_000_250,
        ntp: NtpSnapshot {
            stratum: 1,
            state: DisciplineState::Locked,
            freq_ppb: -5_321,
            pps_offset_us: 0,
            pps_jitter_ps: 1_250_500_000,
            root_disp_us: 115,
            served: 12,
            rate_limited: 3,
            acl_blocked: 0,
            pps_glitch_count: 0,
            leap_indicator: 0,
            proc_delay_ps: 400_000,
            proc_delay_has_sample: true,
        },
        storage: StorageStatus { mounted: true, total_bytes: 16_106_127_360, free_bytes: 1_024 },
        rtc: RtcSnapshot { detected: true, utc_unix_seconds: Some(1_780_336_800) },
        network: NetworkSnapshot::read("clock", Some("home"), Some((0x0A01_A8C0, 0x0101_A8C0))),
        free_heap: 123_456,
        min_heap: 1_023,
        app_partition_bytes: 1_572_864,
    }
}

#[test]
fn time_page_with_gps() {
    assert_eq!(
        screen().draw_page(Page::Time),
        [
            "Page 1/6  TIME",
            "Time:  07:00:00",
            "Date:  2026-06-01",
            "TZ:    -5h",
            "PPS: +250us"
        ]
    );
}

#[test]
fn time_page_without_gps() {
    let mut data = screen();
    data.gps.fix = false;
    data.gps.tz_offset_hours = 0;
    data.pps_delta_us = 0;
    assert_eq!(
        data.draw_page(Page::Time),
        [
            "Page 1/6  TIME",
            "RTC fallback",
            "Time:  13:00:00",
            "Date:  2026-06-01",
            "TZ:    +0h",
            "PPS: n/a"
        ]
    );
}

#[test]
fn clock_without_time_zone_is_shown_at_the_hours_of_gps() {
    let mut data = screen();
    data.gps.sats = 0;
    data.zones = ZoneSettings::new(None);
    data.gps.tz_offset_hours = 7;
    let lines = data.draw_page(Page::Time);
    assert_eq!(lines[2..4], ["Time:  01:00:00", "Date:  2026-06-02"]);
    data.gps.tz_offset_hours = -7;
    let lines = data.draw_page(Page::Time);
    assert_eq!(lines[2..4], ["Time:  18:00:00", "Date:  2026-06-01"]);
}

#[test]
fn location_page_with_and_without_gps() {
    let mut data = screen();
    assert_eq!(
        data.draw_page(Page::Location),
        [
            "Page 2/6  LOCATION",
            "Lat: 38.500000",
            "Lon: -90.250000",
            "Alt: 545.4 m",
            "Sats: 8"
        ]
    );
    data.altitude = None;
    assert_eq!(data.draw_page(Page::Location)[3], "Alt: n/a");
    data.gps.sats = 0;
    data.rtc.utc_unix_seconds = None;
    assert_eq!(
        data.draw_page(Page::Location),
        ["Page 2/6  LOCATION", "RTC fallback", "Time:  n/a", "Date:  n/a"]
    );
}

#[test]
fn resources_page_with_and_without_card() {
    let mut data = screen();
    assert_eq!(
        data.draw_page(Page::Resources),
        [
            "Page 3/6  RESOURCES",
            "SD free: 1.0K",
            "SD total: 15.0G",
            "Heap free: 120.6K",
            "Heap min: 1023B"
        ]
    );
    data.storage = StorageStatus::default();
    let lines = data.draw_page(Page::Resources);
    assert_eq!(lines[1..3], ["SD: not mounted", "App part: 1.5M"]);
}

#[test]
fn battery_page_shows_the_clock() {
    let mut data = screen();
    assert_eq!(
        data.draw_page(Page::Battery),
        [
            "Page 4/6  BATT & RTC",
            "Voltage: 4.000 V",
            "Charge:  99.2 %",
            "Time:  13:00:00",
            "Date:  2026-06-01"
        ]
    );
    data.rtc.detected = false;
    let lines = data.draw_page(Page::Battery);
    assert_eq!(lines[3..5], ["Time:  n/a", "Date:  n/a"]);
}

#[test]
fn battery_page_rounds_the_single_precision_voltage() {
    let mut data = screen();
    for (vcell, text) in [
        ([0xB9, 0x60], "Voltage: 3.707 V"),
        ([0x00, 0x60], "Voltage: 0.007 V"),
        ([0x98, 0x00], "Voltage: 3.040 V"),
    ] {
        data.battery = read_battery(BatteryMonitor::Max17048, vcell, [50, 0]);
        assert_eq!(data.draw_page(Page::Battery)[1], text);
    }
    data.battery = read_battery(BatteryMonitor::Lc709203, [0x10, 0x0E], [50, 0]);
    assert_eq!(data.draw_page(Page::Battery)[1], "Voltage: 3.600 V");
}

#[test]
fn ntp_page_in_every_state() {
    let mut data = screen();
    assert_eq!(
        data.draw_page(Page::Ntp),
        [
            "Page 5/6  NTP",
            "Str:1 LOCKED",
            "Freq:-5.321 ppm",
            "Jit:1.251ms  disp:0.1ms",
            "Proc:1us  srv:12 ko:3"
        ]
    );
    data.ntp.state = DisciplineState::Holdover;
    data.ntp.proc_delay_has_sample = false;
    data.ntp.freq_ppb = 0;
    data.ntp.root_disp_us = 31_000;
    data.ntp.pps_jitter_ps = 499_999;
    let lines = data.draw_page(Page::Ntp);
    assert_eq!(
        lines[1..],
        ["Str:1 HOLDOVER", "Freq:+0.000 ppm", "Jit:0us  disp:31.0ms", "Proc:n/a  srv:12 ko:3"]
    );
    data.ntp = NtpSnapshot::default();
    assert_eq!(data.draw_page(Page::Ntp)[1], "Str:16 UNSYNC");
    assert_eq!(data.draw_page(Page::Ntp)[3], "Jit:0us  disp:5000.0ms");
}

#[test]
fn dispersion_is_rounded_as_a_double() {
    let mut data = screen();
    for us in (50..20_000).step_by(100).chain([0, 1, 249, 250, 2_000_000, u32::MAX]) {
        data.ntp.root_disp_us = us;
        let expected = format!("{:.1}ms", us as f64 / 1_000.0);
        let line = data.draw_page(Page::Ntp)[3].clone();
        assert!(line.ends_with(&format!("  disp:{expected}")), "{line} {expected}");
    }
}

#[test]
fn network_page_shows_addresses() {
    assert_eq!(
        screen().draw_page(Page::Network),
        [
            "Page 6/6  NETWORK",
            "IP:  192.168.1.10",
            "GW:  192.168.1.1",
            "Host: clock",
            "SSID: home"
        ]
    );
}

#[test]
fn pages_go_round() {
    let mut page = Page::Time;
    let mut seen = vec![page];
    for _ in 0..5 {
        page = page.next();
        assert!(!seen.contains(&page));
        seen.push(page);
    }
    assert_eq!(page.next(), Page::Time);
}

#[test]
fn byte_counts_are_rounded_as_doubles() {
    assert_eq!(format_human_bytes(0), "0B");
    assert_eq!(format_human_bytes(512), "512B");
    assert_eq!(format_human_bytes(2_048), "2.0K");
    assert_eq!(format_human_bytes(1_572_864), "1.5M");
    let cases = [
        1_024,
        1_047_552,
        1_048_575,
        1_048_576,
        (1 << 30) - 1,
        1 << 40,
        (1 << 53) + 1,
        (1 << 53) + 3,
        9_007_199_254_740_993,
        12_345_678_901_234_567,
        u64::MAX - 1,
        u64::MAX,
    ];
    for bytes in cases {
        let mut value = bytes as f64;
        let mut unit = 0;
        while value >= 1024.0 && unit < 4 {
            value /= 1024.0;
            unit += 1;
        }
        let expected = format!("{:.1}{}", value, ["B", "K", "M", "G", "T"][unit]);
        assert_eq!(format_human_bytes(bytes), expected);
    }
}

#[test]
fn durations_lose_their_trailing_zeros() {
    assert_eq!(format_unsigned_us(999), "999us");
    assert_eq!(format_unsigned_us(1_000), "1ms");
    assert_eq!(format_unsigned_us(1_250), "1.25ms");
    assert_eq!(format_unsigned_us(1_005), "1.005ms");
    assert_eq!(format_unsigned_us(10_100), "10.1ms");
    assert_eq!(format_unsigned_us(100_000), "100ms");
}

#[test]
fn pps_offset_labels() {
    assert_eq!(pps_offset_label(0), "PPS: n/a");
    assert_eq!(pps_offset_label(1_000_000), "PPS: +0us");
    assert_eq!(pps_offset_label(999_001), "PPS: -999us");
    assert_eq!(pps_offset_label(998_500), "PPS: -1.5ms");
    assert_eq!(pps_offset_label(u32::MAX), "PPS: +4293967.295ms");
}

#[test]
fn points_are_clipped_and_moved() {
    let panel = make_panel();
    assert_eq!(panel.size(), (240, 135));
    assert_eq!(panel.map_point(0, 0), Some((40, 52)));
    assert_eq!(panel.map_point(239, 134), Some((279, 186)));
    assert_eq!(panel.map_point(240, 0), None);
    assert_eq!(panel.map_point(0, 135), None);
    assert_eq!(panel.map_point(-1, 0), None);
    assert_eq!(panel.map_point(0, -1), None);
    assert_eq!(line_y(0), 20);
    assert_eq!(line_y(5), 125);
    assert_eq!(backlight_on_state(), Backlight::On);
    assert_eq!(backlight_off_state(), Backlight::Off);
}

#[test]
fn display_takes_and_releases_its_pins() {
    let mut pool = PinPool::from_board_pins();
    let mut display = DisplayDevice::init(&mut pool).expect("bus pins");
    assert_eq!(display.init_panel(&mut pool), Ok(()));
    for pin in [0, 7, 21, 35, 36, 37, 39, 40, 45] {
        assert_eq!(pool.registry().owner(pin), Some("display"));
    }
    display.close(&mut pool);
    for pin in 0..49 {
        assert_eq!(pool.registry().owner(pin), None);
    }
}

#[test]
fn display_stops_at_the_first_pin_that_is_taken() {
    let mut pool = PinPool::from_board_pins();
    pool.take_gpio35("storage").unwrap();
    assert_eq!(
        DisplayDevice::init(&mut pool),
        Err(PinError::AlreadyInUse { pin: 35, owner: "storage" })
    );
    assert_eq!(pool.registry().owner(36), Some("display"));
    assert_eq!(pool.registry().owner(37), None);
}

#[test]
fn panel_pins_stay_without_a_panel() {
    let mut pool = PinPool::from_board_pins();
    pool.take_gpio40("other").unwrap();
    let mut display = DisplayDevice::init(&mut pool).expect("bus pins");
    assert_eq!(
        display.init_panel(&mut pool),
        Err(PinError::AlreadyInUse { pin: 40, owner: "other" })
    );
    assert!(!display.panel_claimed);
    display.close(&mut pool);
    assert_eq!(pool.registry().owner(40), Some("other"));
    assert_eq!(pool.registry().owner(7), Some("display"));
    assert_eq!(pool.registry().owner(21), None);
}

#[test]
fn sensors_are_sampled_in_turn() {
    let mut ui = UiState::new(1_000);
    assert_eq!(ui.poll_sensors(1_000, true), SensorActions { battery: true, rtc: true });
    assert_eq!(ui.poll_sensors(1_000_999, true), SensorActions { battery: false, rtc: false });
    assert_eq!(ui.poll_sensors(1_001_000, true), SensorActions { battery: false, rtc: true });
    assert_eq!(ui.poll_sensors(5_001_000, false), SensorActions { battery: true, rtc: false });
}

#[test]
fn button_turns_pages_and_wakes() {
    let mut ui = UiState::new(1_000);
    let quiet = ScreenActions { wake: false, blank: false, draw: None };
    assert_eq!(ui.poll_screen(1_000, false), ScreenActions { draw: Some(Page::Time), ..quiet });
    assert_eq!(ui.poll_screen(2_000, false), quiet);
    assert_eq!(ui.poll_screen(3_000, true), ScreenActions { draw: Some(Page::Location), ..quiet });
    assert_eq!(ui.poll_screen(4_000, true), quiet);
    assert_eq!(ui.poll_screen(5_000, false), quiet);
    assert_eq!(ui.poll_screen(5_003_000, false), ScreenActions { draw: Some(Page::Location), ..quiet });
    assert_eq!(ui.poll_screen(15_003_000, false), ScreenActions { blank: true, ..quiet });
    assert_eq!(ui.poll_screen(25_000_000, false), quiet);
    assert_eq!(
        ui.poll_screen(26_000_000, true),
        ScreenActions { wake: true, draw: Some(Page::Location), ..quiet }
    );
}

#[test]
fn feed_keeps_what_was_published() {
    let mut feed = UiFeed::new(StorageStatus { mounted: true, total_bytes: 2, free_bytes: 1 });
    assert_eq!(feed.storage().total_bytes, 2);
    assert_eq!(feed.ntp, NtpSnapshot::default());
    assert_eq!(feed.take_rtc_write(), None);
    feed.request_rtc_write(5);
    feed.request_rtc_write(6);
    assert_eq!(feed.take_rtc_write(), Some(6));
    assert_eq!(feed.take_rtc_write(), None);
    feed.request_rtc_write(-1);
    assert_eq!(feed.take_rtc_write(), None);
    feed.publish_rtc(rtc_sample(Some(7)));
    assert_eq!(feed.rtc(), RtcSnapshot { detected: true, utc_unix_seconds: Some(7) });
    feed.publish_pps_delta(9);
    feed.publish_storage(StorageStatus::default());
    feed.publish_gps(GpsSnapshot { sats: 4, ..GpsSnapshot::default() });
    feed.publish_ntp(NtpSnapshot { served: 3, ..NtpSnapshot::default() });
    assert_eq!((feed.pps_delta_us, feed.gps.sats, feed.ntp.served), (9, 4, 3));
    assert!(!feed.storage().mounted);
}
