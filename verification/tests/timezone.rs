use rust_gps_ntp::gps::GpsSnapshot;
use rust_gps_ntp::rtc::RtcSnapshot;
use rust_gps_ntp::timezone::{
    extract_json_string_field, lookup_interval_us, lookup_outcome, lookup_url, next_provider,
    timezone_from_body, LookupEffect, LookupError, Provider, TimezoneState, TimezoneWorker,
    WorkerReply,
};

#[test]
fn extract_json_string_field_rejects_non_string_value() {
    let body = r#"{"timezone":123}"#;
    assert_eq!(extract_json_string_field(body, "timezone"), None);
}

#[test]
fn extract_json_string_field_reads_timezone_key() {
    let body = r#"{"latitude":38.9,"longitude":-90.2,"timezone":"America/Chicago"}"#;
    assert_eq!(
        extract_json_string_field(body, "timezone"),
        Some("America/Chicago".to_owned())
    );
}

#[test]
fn extract_json_string_field_reads_geonames_alias() {
    let body = r#"{"timezoneId":"Europe/Berlin","status":"OK"}"#;
    assert_eq!(
        extract_json_string_field(body, "timezoneId"),
        Some("Europe/Berlin".to_owned())
    );
}

#[test]
fn extract_json_string_field_missing_key_returns_none() {
    let body = r#"{"latitude":0.0,"longitude":0.0}"#;
    assert_eq!(extract_json_string_field(body, "timezone"), None);
}

#[test]
fn json_field_in_odd_forms() {
    assert_eq!(extract_json_string_field("{\"a\" : \n \"x y\" }", "a").as_deref(), Some("x y"));
    assert_eq!(extract_json_string_field("{\"a\":\"open", "a"), None);
    assert_eq!(extract_json_string_field("{\"a\"", "a"), None);
    assert_eq!(extract_json_string_field("{\"\u{e9}\":\"\u{fc}\"}", "\u{e9}").as_deref(), Some("\u{fc}"));
    assert_eq!(extract_json_string_field("{\"a\":\"\"}", "a").as_deref(), Some(""));
}

#[test]
fn word_that_is_a_value_is_no_key() {
    let value_only = r#"{"label":"timezone","id":"Foo"}"#;
    assert_eq!(extract_json_string_field(value_only, "timezone"), None);
    let both = r#"{"label":"timezone","timezone" : "Asia/Tokyo"}"#;
    assert_eq!(extract_json_string_field(both, "timezone").as_deref(), Some("Asia/Tokyo"));
}

#[test]
fn keys_are_tried_in_turn() {
    assert_eq!(
        timezone_from_body(r#"{"timezoneId":"Europe/Berlin","timezone":"Europe/Paris"}"#).as_deref(),
        Some("Europe/Paris")
    );
    assert_eq!(
        timezone_from_body(r#"{"ianaTimeZoneId":"Asia/Tokyo"}"#).as_deref(),
        Some("Asia/Tokyo")
    );
    assert_eq!(timezone_from_body("{}"), None);
}

#[test]
fn answers_are_judged() {
    let body = r#"{"timezone":"Asia/Tokyo"}"#;
    assert_eq!(lookup_outcome(200, body.as_bytes()), Ok(Some("Asia/Tokyo".to_owned())));
    assert_eq!(lookup_outcome(299, b"{}"), Ok(None));
    assert_eq!(lookup_outcome(300, body.as_bytes()), Err(LookupError::HttpStatus(300)));
    assert_eq!(lookup_outcome(199, &[0xff]), Err(LookupError::HttpStatus(199)));
    assert_eq!(lookup_outcome(200, &[0x7b, 0xff]), Err(LookupError::InvalidBody));
}

#[test]
fn second_provider_is_asked_when_the_first_names_none() {
    assert_eq!(next_provider(Provider::OpenMeteo, &Ok(None)), Some(Provider::GeoNames));
    assert_eq!(next_provider(Provider::OpenMeteo, &Ok(Some("x".to_owned()))), None);
    assert_eq!(next_provider(Provider::OpenMeteo, &Err(LookupError::Transport)), None);
    assert_eq!(next_provider(Provider::GeoNames, &Ok(None)), None);
}

#[test]
fn provider_addresses() {
    assert_eq!(
        lookup_url(Provider::OpenMeteo, "38.900000", "-90.200000"),
        "https://api.open-meteo.com/v1/forecast?latitude=38.900000&longitude=-90.200000&current=temperature_2m&timezone=auto"
    );
    assert_eq!(
        lookup_url(Provider::GeoNames, "38.900000", "-90.200000"),
        "https://secure.geonames.org/timezoneJSON?lat=38.900000&lng=-90.200000&username=demo"
    );
}

#[test]
fn lookups_are_spaced() {
    assert_eq!(lookup_interval_us(true), 21_600_000_000);
    assert_eq!(lookup_interval_us(false), 300_000_000);
    let mut worker = TimezoneWorker::spawn();
    assert!(worker.should_request(false, 5));
    assert!(worker.try_request(true, 5));
    assert!(worker.is_pending());
    assert!(!worker.should_request(false, 1_000_000_000));
    assert!(!worker.try_request(true, 6));
    assert_eq!(worker.poll(WorkerReply::Waiting), None);
    assert!(worker.is_pending());
    assert_eq!(worker.poll(WorkerReply::Done(Ok(None))), Some(Ok(None)));
    assert!(!worker.is_pending());
    assert!(!worker.should_request(false, 300_000_004));
    assert!(worker.should_request(false, 300_000_005));
    assert!(!worker.should_request(true, 300_000_005));
}

#[test]
fn request_that_was_not_sent_does_not_count() {
    let mut worker = TimezoneWorker::spawn();
    assert!(!worker.try_request(false, 5));
    assert!(!worker.is_pending());
    assert_eq!(worker.last_lookup_us, 0);
    assert!(worker.try_request(true, 7));
    assert_eq!(worker.poll(WorkerReply::Gone), Some(Err(LookupError::Disconnected)));
    assert!(!worker.is_pending());
}

#[test]
fn name_in_flash_goes_before_the_card() {
    let state =
        TimezoneState::load(None, Some("Asia/Tokyo".to_owned()), Some("Europe/Paris".to_owned()));
    assert!(state.initialized);
    assert_eq!(state.current_name.as_deref(), Some("Asia/Tokyo"));
    let state = TimezoneState::load(None, None, Some("Europe/Paris".to_owned()));
    assert_eq!(state.current_name.as_deref(), Some("Europe/Paris"));
    assert_eq!(state.boot_snapshot(Some(1_700_000_000)).tz_offset_hours, 1);
    assert_eq!(state.boot_snapshot(None).tz_offset_hours, 0);
    let state = TimezoneState::load(None, Some("Not/A/Zone".to_owned()), Some("Europe/Paris".to_owned()));
    assert!(!state.initialized);
    assert!(state.current_name.is_none());
}

#[test]
fn lookup_results_are_applied() {
    let mut state = TimezoneState::load(None, None, None);
    let tokyo = || Ok(Some("Asia/Tokyo".to_owned()));
    assert_eq!(state.apply_timezone_lookup_result(Ok(None)), LookupEffect::Nameless);
    assert_eq!(
        state.apply_timezone_lookup_result(Err(LookupError::Transport)),
        LookupEffect::Failed
    );
    assert_eq!(
        state.apply_timezone_lookup_result(Ok(Some("Nowhere".to_owned()))),
        LookupEffect::UnknownName
    );
    assert!(!state.initialized);
    assert_eq!(state.apply_timezone_lookup_result(tokyo()), LookupEffect::Changed);
    assert!(state.initialized);
    assert_eq!(state.apply_timezone_lookup_result(tokyo()), LookupEffect::Confirmed);
    assert_eq!(state.current_name.as_deref(), Some("Asia/Tokyo"));
}

#[test]
fn offset_follows_gps_or_else_the_clock() {
    let state = TimezoneState::load(None, Some("America/Chicago".to_owned()), None);
    let summer = RtcSnapshot { detected: true, utc_unix_seconds: Some(1_780_336_800) };
    let mut gps = GpsSnapshot::default();
    assert!(!state.refresh_offset(&mut gps, RtcSnapshot::default()));
    assert!(state.refresh_offset(&mut gps, summer));
    assert_eq!(gps.tz_offset_hours, -5);
    gps.utc_unix_seconds = Some(1_767_268_800);
    assert!(state.refresh_offset(&mut gps, summer));
    assert_eq!(gps.tz_offset_hours, -6);
    let unset = TimezoneState::load(None, None, None);
    assert!(!unset.refresh_offset(&mut gps, summer));
}
