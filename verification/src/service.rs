//! The service loop: what each round of it decides.
//!
//! A round takes in GPS sentences, packets and PPS edges, stands in for GPS by the
//! real-time clock, writes the disciplined time back to it, and keeps the display fed.

use crate::config;
use crate::gps::{self, GpsSnapshot, RmcPosition, SentenceKind, ZoneSettings};
use crate::ntp::clock::{self, ClockAnchor, ClockReading};
use crate::ntp::{protection, Acl, DisciplineState, NtpServer};
use crate::pps::PpsEvent;
use crate::rtc::{RtcSnapshot, FALLBACK_INTERVAL_US, WRITEBACK_INTERVAL_US};
use crate::text;
use crate::ui_task;
use vstd::prelude::*;

verus! {

/// Time between two updates of the display when nothing else causes one.
pub const PUBLISH_INTERVAL_US: i64 = 1_000_000;

/// Seconds after the start at which a silent GPS receiver is reported.
pub const NO_NMEA_WARNING_S: i64 = 10;

/// Seconds after the start at which missing PPS pulses are reported.
pub const NO_PPS_WARNING_S: i64 = 30;

/// What came of a line from the GPS receiver.
#[derive(Debug, Clone, Copy, PartialEq, Eq, Structural)]
pub struct LineEffect {
    /// The snapshot was brought up to date and is to be published.
    pub publish: bool,
    /// There is a fix, so the time zone may be looked up.
    pub lookup: bool,
}

/// Whether a line brings the snapshot up to date.
pub open spec fn line_counts(line: Seq<char>, position: Option<RmcPosition>) -> bool {
    match gps::kind_of(line) {
        SentenceKind::Rmc => gps::is_rmc(line) && position is Some,
        SentenceKind::Gga => gps::is_gga(line),
        SentenceKind::Other => false,
    }
}

/// What a line does to the snapshot.
pub open spec fn line_step(
    line: Seq<char>,
    position: Option<RmcPosition>,
    altitude: Option<u32>,
    zones: &ZoneSettings,
    before: GpsSnapshot,
    after: GpsSnapshot,
) -> bool {
    match gps::kind_of(line) {
        SentenceKind::Rmc => gps::rmc_step(line, position, zones, before, after),
        SentenceKind::Gga => after == gps::after_gga(line, altitude, before),
        SentenceKind::Other => after == before,
    }
}

/// Take in a line from the GPS receiver.
///
/// `position` is what the coordinates of an RMC sentence stand for and `altitude` holds
/// the bits of the altitude in a GGA sentence. A fix with a UTC second sets the server's.
pub fn ingest_line(
    line: &str,
    position: Option<RmcPosition>,
    altitude: Option<u32>,
    zones: &ZoneSettings,
    snapshot: &mut GpsSnapshot,
    server: &mut NtpServer,
    now_us: i64,
) -> (r: LineEffect)
    ensures
        r.publish == line_counts(line@, position),
        r.lookup == (r.publish && gps::kind_of(line@) == SentenceKind::Rmc && final(snapshot).fix),
        line_step(line@, position, altitude, zones, *old(snapshot), *final(snapshot)),
        *final(server) == match final(snapshot).utc_unix_seconds {
            Some(utc) if r.lookup => old(server).after_gps_utc(utc, now_us),
            _ => *old(server),
        },
        old(server).wf() ==> final(server).wf(),
{
    match gps::classify(line) {
        SentenceKind::Rmc => {
            let publish: bool = gps::parse_rmc(line, position, zones, snapshot).is_some();
            let lookup: bool = publish && snapshot.fix;
            if lookup {
                if let Some(utc) = snapshot.utc_unix_seconds {
                    server.update_gps_utc_seconds(utc, now_us);
                }
            }
            LineEffect { publish, lookup }
        },
        SentenceKind::Gga => {
            let publish: bool = gps::parse_gga(line, altitude, snapshot).is_some();
            LineEffect { publish, lookup: false }
        },
        SentenceKind::Other => LineEffect { publish: false, lookup: false },
    }
}

/// The interval that ends with an edge; the first edge has none.
pub open spec fn event_interval(event: PpsEvent) -> Option<u32> {
    match event {
        PpsEvent::First { .. } => None,
        PpsEvent::Delta { interval_us, .. } => Some(interval_us),
    }
}

/// The time of an edge.
pub open spec fn event_edge(event: PpsEvent) -> i64 {
    match event {
        PpsEvent::First { edge_us } => edge_us,
        PpsEvent::Delta { edge_us, .. } => edge_us,
    }
}

/// The blocks of addresses that the configuration lets be served.
pub open spec fn served_blocks(config: Seq<char>) -> Seq<Set<u32>> {
    match config::first_value(text::fields(config, '\n'), "CONFIG_GPS_NTP_ACL_CIDR"@) {
        Some(cidr) => protection::configured_blocks(cidr),
        None => protection::private_blocks(),
    }
}

/// Make the server: with the access list and the naming of seconds that the
/// configuration says, and set by the real-time clock if that has a time.
pub fn init_ntp_server(config: &str, boot_rtc_unix: Option<i64>, now_us: i64) -> (server: NtpServer)
    ensures
        server.wf(),
        server.is_untouched(),
        server.nmea_pps_fudge_s == config::fudge_seconds(config@),
        server.acl.blocks() == served_blocks(config@),
        !server.acl.allows_by_default(),
        server.last_gps_utc_seconds == boot_rtc_unix,
        match boot_rtc_unix {
            Some(secs) => {
                &&& server.clock_anchor == Some(
                    ClockAnchor { unix_seconds: secs, monotonic_us: now_us },
                )
                &&& server.last_gps_utc_update_us == Some(now_us)
            },
            None => server.clock_anchor is None && server.last_gps_utc_update_us is None,
        },
{
    let mut server = NtpServer::new(config::nmea_pps_fudge_s(config));
    let acl = match config::read_sdkconfig_string(config, "CONFIG_GPS_NTP_ACL_CIDR") {
        Some(cidr) => Acl::from_config(cidr.as_str()),
        None => Acl::private_lan(),
    };
    server.set_acl(acl);
    if let Some(secs) = boot_rtc_unix {
        server.update_gps_utc_seconds(secs, now_us);
    }
    server
}

/// What to report about the start.
#[derive(Debug, Clone, Copy, PartialEq, Eq, Structural)]
pub struct Milestones {
    /// Seconds since the start.
    pub elapsed_s: i64,
    /// The first bytes came from the GPS receiver.
    pub first_nmea: bool,
    /// The first fix was found.
    pub first_fix: bool,
    /// The second to set the real-time clock to, which held no time at the start.
    pub seed_rtc: Option<i64>,
    /// The first request was answered.
    pub first_client: bool,
    /// Nothing came from the GPS receiver.
    pub warn_no_nmea: bool,
    /// No PPS pulse came.
    pub warn_no_pps: bool,
}

/// What the loop sees when it looks for milestones.
#[derive(Debug, Clone, Copy, PartialEq, Eq, Structural)]
pub struct Sightings {
    /// The monotonic time.
    pub now_us: i64,
    /// Bytes received from the GPS receiver.
    pub bytes_seen: u64,
    /// Whether there is a fix.
    pub gps_fix: bool,
    /// The last UTC second from GPS.
    pub gps_utc: Option<i64>,
    /// Whether there is a real-time clock.
    pub rtc_present: bool,
    /// Requests answered.
    pub served: u64,
}

/// What the loop remembers from round to round.
#[derive(Debug, Clone, Copy, PartialEq, Eq, Structural)]
pub struct ServiceState {
    /// When the state of the NTP service was last published.
    pub last_ntp_publish_us: i64,
    /// Requests answered when that was last looked at.
    pub last_ntp_served: u64,
    /// When the real-time clock last stood in for GPS; 0 if never.
    pub last_rtc_fallback_us: i64,
    /// When the real-time clock was last set; 0 if never.
    pub last_rtc_write_us: i64,
    /// When the card was last looked at; 0 if never.
    pub last_storage_refresh_us: i64,
    /// When the service started.
    pub boot_us: i64,
    /// Whether bytes came from the GPS receiver.
    pub first_nmea_seen: bool,
    /// Whether there was a fix.
    pub first_fix_seen: bool,
    /// Whether there was a PPS pulse.
    pub first_pps_seen: bool,
    /// Whether a request was answered.
    pub first_client_seen: bool,
    /// Whether a silent GPS receiver was reported.
    pub warned_no_nmea: bool,
    /// Whether missing PPS pulses were reported.
    pub warned_no_pps: bool,
    /// Whether the real-time clock holds a time.
    pub rtc_seeded: bool,
}

impl ServiceState {
    /// The state at the start; `boot_rtc_unix` is the time of the real-time clock.
    pub fn new(boot_us: i64, boot_rtc_unix: Option<i64>) -> (r: Self)
        ensures
            r == (ServiceState {
                last_ntp_publish_us: 0,
                last_ntp_served: 0,
                last_rtc_fallback_us: 0,
                last_rtc_write_us: 0,
                last_storage_refresh_us: 0,
                boot_us,
                first_nmea_seen: false,
                first_fix_seen: false,
                first_pps_seen: false,
                first_client_seen: false,
                warned_no_nmea: false,
                warned_no_pps: false,
                rtc_seeded: boot_rtc_unix is Some,
            }),
    {
        ServiceState {
            last_ntp_publish_us: 0,
            last_ntp_served: 0,
            last_rtc_fallback_us: 0,
            last_rtc_write_us: 0,
            last_storage_refresh_us: 0,
            boot_us,
            first_nmea_seen: false,
            first_fix_seen: false,
            first_pps_seen: false,
            first_client_seen: false,
            warned_no_nmea: false,
            warned_no_pps: false,
            rtc_seeded: boot_rtc_unix.is_some(),
        }
    }

    /// Look whether requests were answered since the last time. Tells whether to publish
    /// the state of the NTP service.
    pub fn note_served(&mut self, served: u64, now_us: i64) -> (publish: bool)
        ensures
            publish == (served > old(self).last_ntp_served),
            *final(self) == if publish {
                ServiceState {
                    last_ntp_served: served,
                    last_ntp_publish_us: now_us,
                    ..*old(self)
                }
            } else {
                *old(self)
            },
    {
        if served > self.last_ntp_served {
            self.last_ntp_served = served;
            self.last_ntp_publish_us = now_us;
            true
        } else {
            false
        }
    }

    /// Look whether the state of the NTP service was published a second ago or more.
    /// Tells whether to publish it.
    pub fn publish_due(&mut self, now_us: i64) -> (publish: bool)
        ensures
            publish == (now_us - old(self).last_ntp_publish_us >= PUBLISH_INTERVAL_US),
            *final(self) == if publish {
                ServiceState { last_ntp_publish_us: now_us, ..*old(self) }
            } else {
                *old(self)
            },
    {
        let publish: bool = now_us as i128 - self.last_ntp_publish_us as i128
            >= PUBLISH_INTERVAL_US as i128;
        if publish {
            self.last_ntp_publish_us = now_us;
        }
        publish
    }

    /// The second for which the real-time clock stands in for GPS, if it does: GPS has
    /// no fix, there is a clock with a valid time, and the last time is long enough ago.
    pub open spec fn fallback_second(
        self,
        gps_fix: bool,
        rtc: RtcSnapshot,
        now_us: i64,
    ) -> Option<i64> {
        if !gps_fix && rtc.detected && ui_task::is_due(
            self.last_rtc_fallback_us,
            now_us,
            FALLBACK_INTERVAL_US,
        ) {
            rtc.utc_unix_seconds
        } else {
            None
        }
    }

    /// Let the real-time clock stand in for GPS while that has no fix. Gives the second
    /// that the server was set by.
    pub fn maybe_apply_rtc_fallback(
        &mut self,
        server: &mut NtpServer,
        gps_fix: bool,
        rtc: RtcSnapshot,
        now_us: i64,
    ) -> (r: Option<i64>)
        ensures
            r == old(self).fallback_second(gps_fix, rtc, now_us),
            *final(server) == match r {
                Some(secs) => old(server).after_gps_utc(secs, now_us),
                None => *old(server),
            },
            old(server).wf() ==> final(server).wf(),
            *final(self) == if r is Some {
                ServiceState { last_rtc_fallback_us: now_us, ..*old(self) }
            } else {
                *old(self)
            },
    {
        if gps_fix || !rtc.detected {
            return None;
        }
        match rtc.utc_unix_seconds {
            None => None,
            Some(secs) => {
                if !ui_task::due(self.last_rtc_fallback_us, now_us, FALLBACK_INTERVAL_US) {
                    return None;
                }
                server.update_gps_utc_seconds(secs, now_us);
                self.last_rtc_fallback_us = now_us;
                Some(secs)
            },
        }
    }

    /// The second to set the real-time clock to, if it is time to: the server is locked
    /// and the clock was not set within the last minute.
    pub open spec fn writeback_second(
        self,
        server: NtpServer,
        gps_fix: bool,
        now_us: i64,
    ) -> Option<i64> {
        match server.clock_anchor {
            Some(anchor) if gps_fix && server.state_at(gps_fix, now_us) == DisciplineState::Locked
                && ui_task::is_due(self.last_rtc_write_us, now_us, WRITEBACK_INTERVAL_US) => Some(
                clock::anchored_unix_seconds(anchor, server.freq_ppb, now_us),
            ),
            _ => None,
        }
    }

    /// Decide whether to set the real-time clock, and to which second.
    pub fn maybe_writeback_rtc(&mut self, server: &NtpServer, gps_fix: bool, now_us: i64) -> (r:
        Option<i64>)
        ensures
            r == old(self).writeback_second(*server, gps_fix, now_us),
            *final(self) == if r is Some {
                ServiceState { last_rtc_write_us: now_us, ..*old(self) }
            } else {
                *old(self)
            },
    {
        if !gps_fix {
            return None;
        }
        if !matches!(server.discipline_state(gps_fix, now_us), DisciplineState::Locked) {
            return None;
        }
        if !ui_task::due(self.last_rtc_write_us, now_us, WRITEBACK_INTERVAL_US) {
            return None;
        }
        let secs = server.current_utc_unix_seconds(now_us);
        if secs.is_some() {
            self.last_rtc_write_us = now_us;
        }
        secs
    }

    /// Decide whether to look at the card: it is mounted and was not looked at within
    /// the interval.
    pub fn storage_refresh_due(&mut self, mounted: bool, now_us: i64, interval_us: i64) -> (r: bool)
        ensures
            r == (mounted && ui_task::is_due(
                old(self).last_storage_refresh_us,
                now_us,
                interval_us,
            )),
            *final(self) == if r {
                ServiceState { last_storage_refresh_us: now_us, ..*old(self) }
            } else {
                *old(self)
            },
    {
        if mounted && ui_task::due(self.last_storage_refresh_us, now_us, interval_us) {
            self.last_storage_refresh_us = now_us;
            true
        } else {
            false
        }
    }

    /// Hand a PPS edge to the server. Gives the interval to publish, which the first
    /// edge has not.
    pub fn apply_pps_event(
        &mut self,
        server: &mut NtpServer,
        event: PpsEvent,
        now: ClockReading,
    ) -> (r: Option<u32>)
        requires
            old(server).wf(),
            now.wf(),
            old(server).anchors_from_gps(event_interval(event), event_edge(event)) ==> (
            old(server).last_gps_utc_seconds matches Some(utc) ==> utc
                + old(server).nmea_pps_fudge_s <= i64::MAX),
        ensures
            final(server).wf(),
            r == event_interval(event),
            *final(server) == old(server).after_pulse(
                event_interval(event),
                event_edge(event),
                now,
            ),
            *final(self) == (ServiceState {
                first_pps_seen: old(self).first_pps_seen || event is First,
                last_ntp_publish_us: now.monotonic_us,
                ..*old(self)
            }),
    {
        self.last_ntp_publish_us = now.monotonic_us;
        match event {
            PpsEvent::First { edge_us } => {
                self.first_pps_seen = true;
                server.observe_pps_pulse(None, edge_us, now);
                None
            },
            PpsEvent::Delta { interval_us, edge_us } => {
                server.observe_pps_pulse(Some(interval_us), edge_us, now);
                Some(interval_us)
            },
        }
    }

    /// Whole seconds since the start, rounded towards zero.
    pub open spec fn elapsed_s(self, now_us: i64) -> int {
        gps::toward_zero(now_us - self.boot_us, 1_000_000)
    }

    /// What there is to report. Everything is reported once.
    pub open spec fn milestones_at(self, seen: Sightings) -> Milestones {
        let elapsed = self.elapsed_s(seen.now_us);
        let first_nmea = !self.first_nmea_seen && seen.bytes_seen > 0;
        let first_fix = !self.first_fix_seen && seen.gps_fix;
        let nmea_seen = self.first_nmea_seen || first_nmea;
        Milestones {
            elapsed_s: elapsed as i64,
            first_nmea,
            first_fix,
            seed_rtc: if first_fix && seen.rtc_present && !self.rtc_seeded {
                seen.gps_utc
            } else {
                None
            },
            first_client: !self.first_client_seen && seen.served > 0,
            warn_no_nmea: !self.warned_no_nmea && !nmea_seen && elapsed >= NO_NMEA_WARNING_S,
            warn_no_pps: !self.warned_no_pps && nmea_seen && !self.first_pps_seen && elapsed
                >= NO_PPS_WARNING_S,
        }
    }

    /// The state after a report.
    pub open spec fn after_report(self, report: Milestones) -> ServiceState {
        ServiceState {
            first_nmea_seen: self.first_nmea_seen || report.first_nmea,
            first_fix_seen: self.first_fix_seen || report.first_fix,
            first_client_seen: self.first_client_seen || report.first_client,
            warned_no_nmea: self.warned_no_nmea || report.warn_no_nmea,
            warned_no_pps: self.warned_no_pps || report.warn_no_pps,
            rtc_seeded: self.rtc_seeded || report.seed_rtc is Some,
            ..self
        }
    }

    /// Look for what there is to report about the start.
    pub fn check_milestones(&mut self, seen: Sightings) -> (r: Milestones)
        requires
            i64::MIN <= seen.now_us - old(self).boot_us <= i64::MAX,
        ensures
            r == old(self).milestones_at(seen),
            *final(self) == old(self).after_report(r),
    {
        let elapsed_us: i64 = seen.now_us - self.boot_us;
        let elapsed_s: i64 = if elapsed_us >= 0 {
            elapsed_us / 1_000_000
        } else {
            (-((-(elapsed_us as i128)) / 1_000_000)) as i64
        };
        let first_nmea: bool = !self.first_nmea_seen && seen.bytes_seen > 0;
        if first_nmea {
            self.first_nmea_seen = true;
        }
        let first_fix: bool = !self.first_fix_seen && seen.gps_fix;
        let mut seed_rtc: Option<i64> = None;
        if first_fix {
            self.first_fix_seen = true;
            if seen.rtc_present && !self.rtc_seeded && seen.gps_utc.is_some() {
                seed_rtc = seen.gps_utc;
                self.rtc_seeded = true;
            }
        }
        let first_client: bool = !self.first_client_seen && seen.served > 0;
        if first_client {
            self.first_client_seen = true;
        }
        let warn_no_nmea: bool = !self.warned_no_nmea && !self.first_nmea_seen && elapsed_s
            >= NO_NMEA_WARNING_S;
        if warn_no_nmea {
            self.warned_no_nmea = true;
        }
        let warn_no_pps: bool = !self.warned_no_pps && self.first_nmea_seen && !self.first_pps_seen
            && elapsed_s >= NO_PPS_WARNING_S;
        if warn_no_pps {
            self.warned_no_pps = true;
        }
        Milestones {
            elapsed_s,
            first_nmea,
            first_fix,
            seed_rtc,
            first_client,
            warn_no_nmea,
            warn_no_pps,
        }
    }
}

/// Everything is reported once: what was reported is not reported again, whatever is
/// seen later.
pub proof fn law_reports_come_once(state: ServiceState, seen: Sightings, later: Sightings)
    ensures
        ({
            let first = state.milestones_at(seen);
            let second = state.after_report(first).milestones_at(later);
            &&& !(first.first_nmea && second.first_nmea)
            &&& !(first.first_fix && second.first_fix)
            &&& !(first.first_client && second.first_client)
            &&& !(first.warn_no_nmea && second.warn_no_nmea)
            &&& !(first.warn_no_pps && second.warn_no_pps)
            &&& !(first.seed_rtc is Some && second.seed_rtc is Some)
        }),
{
}

/// The real-time clock never stands in for GPS and is set by it in the same round.
pub proof fn law_fallback_or_writeback(
    state: ServiceState,
    server: NtpServer,
    gps_fix: bool,
    rtc: RtcSnapshot,
    now_us: i64,
)
    ensures
        !(state.fallback_second(gps_fix, rtc, now_us) is Some && state.writeback_second(
            server,
            gps_fix,
            now_us,
        ) is Some),
{
}

/// A real-time clock that agrees with the anchor to a second leaves the clock as it is.
pub proof fn law_fallback_keeps_a_good_anchor(
    state: ServiceState,
    server: NtpServer,
    rtc: RtcSnapshot,
    now_us: i64,
)
    requires
        state.fallback_second(false, rtc, now_us) matches Some(secs) && server.clock_anchor matches
            Some(anchor) && -1 <= NtpServer::predicted_utc(anchor, now_us) - secs <= 1,
    ensures
        server.after_gps_utc(
            state.fallback_second(false, rtc, now_us)->0,
            now_us,
        ).clock_anchor == server.clock_anchor,
{
}

/// The real-time clock stands in for GPS exactly while that has no fix, if the clock is
/// there and has a time, and at most once a second.
pub proof fn law_when_the_clock_stands_in(
    state: ServiceState,
    gps_fix: bool,
    rtc: RtcSnapshot,
    now_us: i64,
)
    ensures
        ({
            let second = state.fallback_second(gps_fix, rtc, now_us);
            &&& second is Some <==> !gps_fix && rtc.detected && rtc.utc_unix_seconds is Some && (
            state.last_rtc_fallback_us == 0 || now_us - state.last_rtc_fallback_us >= 1_000_000)
            &&& second is Some ==> second == rtc.utc_unix_seconds
        }),
{
}

/// The real-time clock is set exactly while there are a fix and an anchor and the last
/// pulse is less than ten seconds old, and at most once a minute. It is set to the second
/// of the anchor and the corrected time since then.
pub proof fn law_when_the_clock_is_set(
    state: ServiceState,
    server: NtpServer,
    gps_fix: bool,
    now_us: i64,
)
    ensures
        ({
            let second = state.writeback_second(server, gps_fix, now_us);
            &&& second is Some <==> gps_fix && server.clock_anchor is Some && server.pps_age_us(
                now_us,
            ) < 10_000_000 && (state.last_rtc_write_us == 0 || now_us - state.last_rtc_write_us
                >= 60_000_000)
            &&& second matches Some(utc) ==> {
                let anchor = server.clock_anchor->0;
                let shown = clock::corrected_elapsed_us(anchor, server.freq_ppb, now_us) as int;
                let sum = anchor.unix_seconds + shown / 1_000_000;
                i64::MIN <= sum <= i64::MAX ==> utc == sum
            }
        }),
{
}

/// The first bytes, the first fix and the first client are reported when they are seen.
/// A silent receiver is reported after ten seconds, and missing pulses after thirty, if
/// the receiver is heard. The clock is set by the first fix if it had no time.
pub proof fn law_what_is_reported(state: ServiceState, seen: Sightings)
    requires
        0 <= seen.now_us - state.boot_us,
    ensures
        ({
            let report = state.milestones_at(seen);
            let passed = seen.now_us - state.boot_us;
            let heard = state.first_nmea_seen || seen.bytes_seen > 0;
            &&& passed <= i64::MAX ==> 1_000_000 * report.elapsed_s <= passed < 1_000_000 * (
            report.elapsed_s + 1)
            &&& report.first_nmea <==> seen.bytes_seen > 0 && !state.first_nmea_seen
            &&& report.first_fix <==> seen.gps_fix && !state.first_fix_seen
            &&& report.first_client <==> seen.served > 0 && !state.first_client_seen
            &&& report.warn_no_nmea <==> !heard && passed >= 10_000_000 && !state.warned_no_nmea
            &&& report.warn_no_pps <==> heard && !state.first_pps_seen && passed >= 30_000_000
                && !state.warned_no_pps
            &&& report.seed_rtc == if seen.gps_fix && !state.first_fix_seen && seen.rtc_present
                && !state.rtc_seeded {
                seen.gps_utc
            } else {
                None
            }
        }),
{
}

/// A report is remembered, and changes nothing else.
pub proof fn law_reports_are_remembered(state: ServiceState, report: Milestones)
    ensures
        ({
            let after = state.after_report(report);
            &&& after.first_nmea_seen <==> state.first_nmea_seen || report.first_nmea
            &&& after.first_fix_seen <==> state.first_fix_seen || report.first_fix
            &&& after.first_client_seen <==> state.first_client_seen || report.first_client
            &&& after.warned_no_nmea <==> state.warned_no_nmea || report.warn_no_nmea
            &&& after.warned_no_pps <==> state.warned_no_pps || report.warn_no_pps
            &&& after.rtc_seeded <==> state.rtc_seeded || report.seed_rtc is Some
            &&& after == (ServiceState {
                first_nmea_seen: after.first_nmea_seen,
                first_fix_seen: after.first_fix_seen,
                first_client_seen: after.first_client_seen,
                warned_no_nmea: after.warned_no_nmea,
                warned_no_pps: after.warned_no_pps,
                rtc_seeded: after.rtc_seeded,
                ..state
            })
        }),
{
}

/// An edge reaches the server with its own time and, but for the first, its own interval.
pub proof fn law_edges_are_passed_on(edge_us: i64, interval_us: u32)
    ensures
        event_interval(PpsEvent::First { edge_us }) is None,
        event_edge(PpsEvent::First { edge_us }) == edge_us,
        event_interval(PpsEvent::Delta { interval_us, edge_us }) == Some(interval_us),
        event_edge(PpsEvent::Delta { interval_us, edge_us }) == edge_us,
{
}

/// A line is handled by its kind: RMC and GGA sentences that are complete bring the
/// snapshot up to date, and nothing else does.
pub proof fn law_lines_are_handled_by_kind(
    line: Seq<char>,
    position: Option<RmcPosition>,
    altitude: Option<u32>,
    zones: &ZoneSettings,
    before: GpsSnapshot,
    after: GpsSnapshot,
)
    requires
        line_step(line, position, altitude, zones, before, after),
    ensures
        line_counts(line, position) <==> {
            ||| gps::kind_of(line) == SentenceKind::Rmc && gps::is_rmc(line) && position is Some
            ||| gps::kind_of(line) == SentenceKind::Gga && gps::is_gga(line)
        },
        !line_counts(line, position) ==> after == before,
        gps::kind_of(line) == SentenceKind::Rmc ==> gps::rmc_step(
            line,
            position,
            zones,
            before,
            after,
        ),
        gps::kind_of(line) == SentenceKind::Gga ==> after == gps::after_gga(line, altitude, before),
{
}

/// The blocks that are served are those of the configured text, and the private networks
/// while none is configured.
pub proof fn law_configuration_decides_who_is_served(config: Seq<char>, cidr: Seq<char>)
    ensures
        config::first_value(text::fields(config, '\n'), "CONFIG_GPS_NTP_ACL_CIDR"@) == Some(cidr)
            ==> served_blocks(config) == protection::configured_blocks(cidr),
        config::first_value(text::fields(config, '\n'), "CONFIG_GPS_NTP_ACL_CIDR"@) is None
            ==> served_blocks(config) == protection::private_blocks(),
{
}

/// The state of the NTP service is published a second after the last time.
pub proof fn law_published_every_second(since_us: int)
    ensures
        since_us >= PUBLISH_INTERVAL_US <==> since_us >= 1_000_000,
{
}

} // verus!
