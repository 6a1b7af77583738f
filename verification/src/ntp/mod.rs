//! The NTP server: clock discipline, service rules and responses.
//!
//! GPS gives the number of the second and PPS marks where it begins. A servo
//! learns the drift of the oscillator from the PPS intervals. When PPS stops, the
//! server goes on from the oscillator and states a growing uncertainty.
//!
//! The server reads no clock and owns no socket. Each operation takes the clock
//! readings that it needs, and [`NtpServer::handle_packet`] says what to send.

pub mod clock;
pub mod laws;
pub mod mode6;
pub mod packet;
pub mod protection;
pub mod vars;

pub use protection::Acl;

use clock::{floor_div, ntp_timestamp_at, ntp_timestamp_from_wall, saturating_sub, saturating_sum,
    unix_seconds_at, ClockAnchor, ClockReading, MICROS_PER_SEC};
use mode6::{build_mode6_response, ServoMetrics, NTP_CONTROL_HEADER_LEN, PICOS_PER_MICRO};
use packet::{build_kod_response, build_response, DisciplineParams, NTP_PACKET_LEN};
use protection::RateLimiter;
use vstd::prelude::*;

verus! {

/// UDP port of the service.
pub const NTP_PORT: u16 = 123;

/// Size of the buffer that a request is received into.
pub const NTP_MAX_PACKET_LEN: usize = 512;

/// Parts per billion of frequency learned from a microsecond of phase error.
pub const SERVO_KI_PPB_PER_US: i64 = 10;

/// Share of the phase error that is taken out of the anchor: one in this many.
pub const SERVO_KP_DIVISOR: i64 = 10;

/// Largest frequency offset that the servo learns, in parts per billion.
pub const SERVO_MAX_FREQ_PPB: i64 = 500_000;

/// Time without a PPS pulse after which the server is in holdover.
pub const HOLDOVER_ENTRY_US: i64 = 10_000_000;

/// Growth of the root dispersion per second of holdover.
pub const HOLDOVER_DISP_RATE_US_PER_SEC: i64 = 500;

/// Root dispersion at the beginning of holdover.
pub const BASE_DISP_US: i64 = 1_000;

/// Largest root dispersion that is stated.
pub const MAX_DISP_US: i64 = 2_000_000;

/// Root dispersion from which on the server is unsynchronised.
pub const HOLDOVER_UNSYNC_US: i64 = 1_000_000;

/// Assumed largest drift of the oscillator in microseconds per second.
pub const PHI_US_PER_S: i64 = 15;

/// Accuracy of the PPS capture.
pub const MIN_HW_ACCURACY_US: i64 = 100;

/// Uncertainty that comes from polling once a millisecond.
pub const LOOP_POLL_UNCERTAINTY_US: i64 = 500;

/// Phase error above which a pulse counts as a glitch.
pub const PPS_OUTLIER_THRESHOLD_US: i64 = 50_000;

/// Age from which on GPS time is too old to anchor the first pulse.
pub const GPS_STALE_THRESHOLD_US: i64 = 2_000_000;

/// Shortest PPS interval that the servo takes.
pub const PPS_MIN_INTERVAL_US: u32 = 800_000;

/// Longest PPS interval that the servo takes.
pub const PPS_MAX_INTERVAL_US: u32 = 1_200_000;

/// State of the clock discipline.
#[derive(Clone, Copy, Debug, PartialEq, Eq, Structural)]
pub enum DisciplineState {
    /// GPS fix present, PPS fresh and anchor set.
    Locked,
    /// PPS or GPS lost; served from the oscillator with growing uncertainty.
    Holdover,
    /// No anchor, or an uncertainty of a second or more.
    Unsync,
}

/// The state of the server in figures.
#[derive(Clone, Copy, Debug, PartialEq, Eq, Structural)]
pub struct NtpSnapshot {
    /// 1 when the time is good, 16 when it is not.
    pub stratum: u8,
    /// State of the clock discipline.
    pub state: DisciplineState,
    /// What the oscillator is fast by, in parts per billion.
    pub freq_ppb: i32,
    /// Phase error of the last PPS interval in microseconds.
    pub pps_offset_us: i32,
    /// Smoothed size of the phase error in picoseconds.
    pub pps_jitter_ps: u64,
    /// Root dispersion in microseconds.
    pub root_disp_us: u32,
    /// Requests answered.
    pub served: u64,
    /// Requests turned away because they came too soon.
    pub rate_limited: u64,
    /// Packets dropped by the access list.
    pub acl_blocked: u64,
    /// PPS pulses rejected as glitches.
    pub pps_glitch_count: u32,
    /// Leap indicator that responses carry.
    pub leap_indicator: u8,
    /// Smoothed time from a request to its answer in picoseconds.
    pub proc_delay_ps: u128,
    /// Whether an answer has been timed.
    pub proc_delay_has_sample: bool,
}

impl NtpSnapshot {
    /// The figures before anything is known.
    pub open spec fn initial() -> NtpSnapshot {
        NtpSnapshot {
            stratum: 16,
            state: DisciplineState::Unsync,
            freq_ppb: 0,
            pps_offset_us: 0,
            pps_jitter_ps: 0,
            root_disp_us: 5_000_000,
            served: 0,
            rate_limited: 0,
            acl_blocked: 0,
            pps_glitch_count: 0,
            leap_indicator: 0,
            proc_delay_ps: 0,
            proc_delay_has_sample: false,
        }
    }
}

impl Default for NtpSnapshot {
    fn default() -> (r: Self)
        ensures
            r == NtpSnapshot::initial(),
    {
        NtpSnapshot {
            stratum: 16,
            state: DisciplineState::Unsync,
            freq_ppb: 0,
            pps_offset_us: 0,
            pps_jitter_ps: 0,
            root_disp_us: 5_000_000,
            served: 0,
            rate_limited: 0,
            acl_blocked: 0,
            pps_glitch_count: 0,
            leap_indicator: 0,
            proc_delay_ps: 0,
            proc_delay_has_sample: false,
        }
    }
}

/// The server.
pub struct NtpServer {
    /// Requests answered.
    pub served: u64,
    /// Instant and number of a second, once one is known.
    pub clock_anchor: Option<ClockAnchor>,
    /// Last UTC second from GPS or another source.
    pub last_gps_utc_seconds: Option<i64>,
    /// Whether a PPS pulse has disciplined the clock.
    pub pps_locked: bool,
    /// Phase error of the last accepted PPS interval in microseconds.
    pub pps_offset_us: i32,
    /// Smoothed size of the phase error in picoseconds.
    pub pps_jitter_ps: u64,
    /// Whether the servo has taken an interval.
    pub pps_has_sample: bool,
    /// Smoothed time from a request to its answer in picoseconds.
    pub proc_delay_ps: u128,
    /// Whether an answer has been timed.
    pub proc_delay_has_sample: bool,
    /// What the oscillator is fast by, in parts per billion.
    pub freq_ppb: i32,
    /// Monotonic time of the last accepted PPS pulse.
    pub last_pps_monotonic_us: Option<i64>,
    /// Timestamp of the last accepted PPS pulse.
    pub last_sync_ntp_ts: u64,
    /// Times of the last accepted request of each client.
    pub rate_limiter: RateLimiter,
    /// Addresses that are served.
    pub acl: Acl,
    /// Requests turned away because they came too soon.
    pub rate_limited_total: u64,
    /// Packets dropped by the access list.
    pub acl_blocked_total: u64,
    /// Leap indicator for the time when the clock is good.
    pub pending_leap: u8,
    /// PPS pulses rejected as glitches.
    pub pps_glitch_count: u32,
    /// Monotonic time at which the last UTC second came in.
    pub last_gps_utc_update_us: Option<i64>,
    /// Seconds from the last UTC second to the one that a PPS pulse begins.
    pub nmea_pps_fudge_s: i64,
}

/// A moving average: four fifths of the old value and one fifth of the sample. It is
/// kept to the nearest unit, which for picoseconds is finer than single precision from
/// 16 microseconds on.
pub open spec fn smoothed(old_value: int, sample: int) -> int {
    (4 * old_value + sample + 2) / 5
}

/// A tenth, rounded towards zero.
pub open spec fn tenth(x: int) -> int {
    if x >= 0 {
        x / SERVO_KP_DIVISOR as int
    } else {
        -((-x) / SERVO_KP_DIVISOR as int)
    }
}

/// A frequency brought into the range of the servo.
pub open spec fn clamped_freq(ppb: int) -> i32 {
    if ppb > SERVO_MAX_FREQ_PPB {
        SERVO_MAX_FREQ_PPB as i32
    } else if ppb < -SERVO_MAX_FREQ_PPB {
        (-SERVO_MAX_FREQ_PPB) as i32
    } else {
        ppb as i32
    }
}

/// A duration in picoseconds rounded to microseconds.
pub open spec fn rounded_us(ps: int) -> int {
    (ps + PICOS_PER_MICRO / 2) / PICOS_PER_MICRO as int
}

/// The larger of two numbers.
pub open spec fn larger(a: int, b: int) -> int {
    if a >= b {
        a
    } else {
        b
    }
}

/// The smaller of two numbers.
pub open spec fn smaller(a: int, b: int) -> int {
    if a <= b {
        a
    } else {
        b
    }
}

/// Whether an error of `ps` picoseconds is at least two to the power of
/// `exponent` seconds.
pub open spec fn reaches_exponent(ps: int, exponent: int) -> bool {
    ps * 0x10_0000 >= 1_000_000_000_000 * vstd::arithmetic::power2::pow2((exponent + 20) as nat)
}

/// The largest exponent from -20 to `from` whose power of two, in seconds, does
/// not exceed the error; -20 if there is none.
pub open spec fn precision_exponent(ps: int, from: int) -> int
    decreases from + 20,
{
    if from <= -20 || reaches_exponent(ps, from) {
        from
    } else {
        precision_exponent(ps, from - 1)
    }
}

/// The precision that states an error of `ps` picoseconds: its binary logarithm in
/// seconds, rounded down and brought into the range from -20 to -4.
pub open spec fn precision_of(ps: int) -> i8 {
    precision_exponent(ps, -4) as i8
}

/// Largest duration that is smoothed, in picoseconds.
pub const MAX_DELAY_PS: u128 = 9_223_372_036_854_775_807_000_000;

/// Largest phase error that is smoothed, in picoseconds.
pub const MAX_JITTER_PS: u64 = 200_000_000_000;

/// State an error as a precision.
pub fn ntp_precision_from_uncertainty_ps(ps: u128) -> (r: i8)
    requires
        ps <= MAX_DELAY_PS,
    ensures
        r == precision_of(ps as int),
        -20 <= r <= -4,
{
    proof {
        vstd::arithmetic::power2::lemma2_to64();
    }
    let scaled: u128 = ps * 0x10_0000;
    let mut exponent: i8 = -4;
    let mut threshold: u128 = 1_000_000_000_000 * 0x1_0000;
    while exponent > -20 && scaled < threshold
        invariant
            -20 <= exponent <= -4,
            scaled == ps * 0x10_0000,
            threshold == 1_000_000_000_000 * vstd::arithmetic::power2::pow2((exponent + 20) as nat),
            precision_exponent(ps as int, -4) == precision_exponent(ps as int, exponent as int),
        decreases exponent + 20,
    {
        proof {
            vstd::arithmetic::power2::lemma_pow2_unfold((exponent + 20) as nat);
        }
        threshold = threshold / 2;
        exponent = exponent - 1;
    }
    exponent
}

/// Compute the root dispersion in holdover.
fn holdover_disp(age_us: i64) -> (r: i64)
    ensures
        r == NtpServer::holdover_disp_us(age_us as int),
{
    let over: i64 = if age_us > HOLDOVER_ENTRY_US {
        age_us - HOLDOVER_ENTRY_US
    } else {
        0
    };
    let grown: i64 = BASE_DISP_US + over / MICROS_PER_SEC * HOLDOVER_DISP_RATE_US_PER_SEC;
    if grown < MAX_DISP_US {
        grown
    } else {
        MAX_DISP_US
    }
}

impl NtpServer {
    /// The values that the servo and the setters can give.
    pub open spec fn wf(&self) -> bool {
        &&& -SERVO_MAX_FREQ_PPB <= self.freq_ppb <= SERVO_MAX_FREQ_PPB
        &&& self.pending_leap <= 2
        &&& self.pps_jitter_ps <= MAX_JITTER_PS
        &&& self.proc_delay_ps <= MAX_DELAY_PS
        &&& 0 <= self.nmea_pps_fudge_s <= 1
        &&& self.rate_limiter.wf()
        &&& self.acl.wf()
    }

    /// Whether no pulse and no packet has come in.
    pub open spec fn is_untouched(&self) -> bool {
        &&& self.served == 0
        &&& !self.pps_locked
        &&& self.pps_offset_us == 0
        &&& self.pps_jitter_ps == 0
        &&& !self.pps_has_sample
        &&& self.proc_delay_ps == 0
        &&& !self.proc_delay_has_sample
        &&& self.freq_ppb == 0
        &&& self.last_pps_monotonic_us is None
        &&& self.last_sync_ntp_ts == 0
        &&& forall|addr: u32| !protection::tracked_addr(self.rate_limiter@, addr)
        &&& self.rate_limited_total == 0
        &&& self.acl_blocked_total == 0
        &&& self.pending_leap == 0
        &&& self.pps_glitch_count == 0
    }

    /// Create a server that has no time yet and serves everybody.
    ///
    /// `nmea_pps_fudge_s` is 1 for receivers that name a second after its pulse,
    /// and 0 for those that name it before.
    pub fn new(nmea_pps_fudge_s: i64) -> (r: Self)
        requires
            0 <= nmea_pps_fudge_s <= 1,
        ensures
            r.wf(),
            r.is_untouched(),
            r.clock_anchor is None,
            r.last_gps_utc_seconds is None,
            r.last_gps_utc_update_us is None,
            r.acl.blocks() == Seq::<Set<u32>>::empty(),
            r.acl.allows_by_default(),
            r.nmea_pps_fudge_s == nmea_pps_fudge_s,
    {
        NtpServer {
            served: 0,
            clock_anchor: None,
            last_gps_utc_seconds: None,
            pps_locked: false,
            pps_offset_us: 0,
            pps_jitter_ps: 0,
            pps_has_sample: false,
            proc_delay_ps: 0,
            proc_delay_has_sample: false,
            freq_ppb: 0,
            last_pps_monotonic_us: None,
            last_sync_ntp_ts: 0,
            rate_limiter: RateLimiter::new(),
            acl: Acl::allow_all(),
            rate_limited_total: 0,
            acl_blocked_total: 0,
            pending_leap: 0,
            pps_glitch_count: 0,
            last_gps_utc_update_us: None,
            nmea_pps_fudge_s,
        }
    }

    /// Replace the access list.
    pub fn set_acl(&mut self, acl: Acl)
        ensures
            *final(self) == (NtpServer { acl, ..*old(self) }),
    {
        self.acl = acl;
    }

    /// Announce a leap second: 1 for a minute of 61 seconds at the end of the day,
    /// 2 for one of 59, 0 for none. Larger values count as 2.
    pub fn set_leap_indicator(&mut self, li: u8)
        ensures
            *final(self) == (NtpServer {
                pending_leap: if li < 2 {
                    li
                } else {
                    2
                },
                ..*old(self)
            }),
    {
        self.pending_leap = if li < 2 {
            li
        } else {
            2
        };
    }

    /// The UTC second that the anchor predicts for `now_us`.
    pub open spec fn predicted_utc(anchor: ClockAnchor, now_us: i64) -> i64 {
        clock::sat_i64(
            anchor.unix_seconds + clock::sat_i64(now_us - anchor.monotonic_us)
                / MICROS_PER_SEC,
        )
    }

    /// The server after a UTC second came in at `now_us`.
    ///
    /// The anchor is set to it when there is none, or when it is off by more than a
    /// second.
    pub open spec fn after_gps_utc(self, utc: i64, now_us: i64) -> NtpServer {
        NtpServer {
            last_gps_utc_seconds: Some(utc),
            last_gps_utc_update_us: Some(now_us),
            clock_anchor: match self.clock_anchor {
                Some(anchor) => if -1 <= Self::predicted_utc(anchor, now_us) - utc <= 1 {
                    Some(anchor)
                } else {
                    Some(ClockAnchor { unix_seconds: utc, monotonic_us: now_us })
                },
                None => Some(ClockAnchor { unix_seconds: utc, monotonic_us: now_us }),
            },
            ..self
        }
    }

    /// Take in a UTC second from GPS, the RTC or another source.
    pub fn update_gps_utc_seconds(&mut self, utc_unix_seconds: i64, now_us: i64)
        ensures
            *final(self) == old(self).after_gps_utc(utc_unix_seconds, now_us),
            old(self).wf() ==> final(self).wf(),
    {
        self.last_gps_utc_seconds = Some(utc_unix_seconds);
        self.last_gps_utc_update_us = Some(now_us);
        match self.clock_anchor {
            Some(anchor) => {
                let elapsed_sec: i64 = floor_div(
                    saturating_sub(now_us, anchor.monotonic_us),
                    MICROS_PER_SEC,
                );
                let predicted: i64 = saturating_sum(anchor.unix_seconds, elapsed_sec);
                let off: i64 = saturating_sub(predicted, utc_unix_seconds);
                if off > 1 || off < -1 {
                    self.clock_anchor = Some(
                        ClockAnchor { unix_seconds: utc_unix_seconds, monotonic_us: now_us },
                    );
                }
            },
            None => {
                self.clock_anchor = Some(
                    ClockAnchor { unix_seconds: utc_unix_seconds, monotonic_us: now_us },
                );
            },
        }
    }

    /// The timestamp that the server gives out: that of the anchored clock, or that
    /// of the wall clock while there is no anchor.
    pub open spec fn timestamp_at(self, now: ClockReading) -> u64 {
        match self.clock_anchor {
            Some(anchor) => clock::anchored_timestamp(anchor, self.freq_ppb, now.monotonic_us),
            None => clock::wall_timestamp(now),
        }
    }

    /// Read the current timestamp.
    pub fn current_ntp_timestamp(&self, now: ClockReading) -> (r: u64)
        requires
            now.wf(),
        ensures
            r == self.timestamp_at(now),
    {
        match self.clock_anchor {
            Some(anchor) => ntp_timestamp_at(anchor, self.freq_ppb, now.monotonic_us),
            None => ntp_timestamp_from_wall(now),
        }
    }

    /// Read the current UTC second, if there is an anchor.
    pub fn current_utc_unix_seconds(&self, now_us: i64) -> (r: Option<i64>)
        ensures
            r == match self.clock_anchor {
                Some(anchor) => Some(clock::anchored_unix_seconds(anchor, self.freq_ppb, now_us)),
                None => None,
            },
    {
        match self.clock_anchor {
            Some(anchor) => Some(unix_seconds_at(anchor, self.freq_ppb, now_us)),
            None => None,
        }
    }

    /// Whether the last UTC second is recent enough to anchor a first pulse.
    pub open spec fn gps_fresh(self, edge_us: i64) -> bool {
        self.last_gps_utc_update_us matches Some(t) && edge_us - t < GPS_STALE_THRESHOLD_US
    }

    /// The anchor of a pulse that begins the second after the last UTC second.
    pub open spec fn gps_anchor(self, utc: i64, edge_us: i64) -> ClockAnchor {
        ClockAnchor {
            unix_seconds: (utc + self.nmea_pps_fudge_s) as i64,
            monotonic_us: edge_us,
        }
    }

    /// The server after the first pulse, at `edge_us`.
    ///
    /// The pulse anchors the clock if a recent UTC second is known; otherwise it
    /// does nothing.
    pub open spec fn after_first_pulse(self, edge_us: i64, now: ClockReading) -> NtpServer {
        match self.last_gps_utc_seconds {
            Some(utc) if self.gps_fresh(edge_us) => NtpServer {
                clock_anchor: Some(self.gps_anchor(utc, edge_us)),
                pps_locked: true,
                last_pps_monotonic_us: Some(edge_us),
                ..self
            }.synced_at(now),
            _ => self,
        }
    }

    /// The server with the current timestamp as its reference timestamp.
    pub open spec fn synced_at(self, now: ClockReading) -> NtpServer {
        NtpServer { last_sync_ntp_ts: self.timestamp_at(now), ..self }
    }

    /// The phase error of an interval in microseconds.
    pub open spec fn phase_error(interval: u32) -> int {
        interval - 1_000_000
    }

    /// Whether an interval is near enough to a second to be a PPS interval.
    pub open spec fn interval_valid(interval: u32) -> bool {
        PPS_MIN_INTERVAL_US <= interval <= PPS_MAX_INTERVAL_US
    }

    /// Whether an interval is a glitch: its phase error is large and the servo has
    /// already taken an interval.
    pub open spec fn is_glitch(self, interval: u32) -> bool {
        self.pps_has_sample && mode6::magnitude(Self::phase_error(interval))
            > PPS_OUTLIER_THRESHOLD_US
    }

    /// The anchor after an accepted interval: one second later, and placed a tenth
    /// of the phase error before the pulse.
    pub open spec fn anchor_after_interval(self, interval: u32, edge_us: i64) -> Option<
        ClockAnchor,
    > {
        match self.clock_anchor {
            Some(anchor) => Some(
                ClockAnchor {
                    unix_seconds: clock::sat_i64(anchor.unix_seconds + 1),
                    monotonic_us: clock::sat_i64(edge_us - tenth(Self::phase_error(interval))),
                },
            ),
            None => match self.last_gps_utc_seconds {
                Some(utc) => Some(self.gps_anchor(utc, edge_us)),
                None => None,
            },
        }
    }

    /// The server after a pulse at `edge_us`, `interval` after the one before.
    ///
    /// An interval that is too short or too long does nothing. A glitch is counted.
    /// Every other interval runs the servo.
    pub open spec fn after_interval(
        self,
        interval: u32,
        edge_us: i64,
        now: ClockReading,
    ) -> NtpServer {
        let phase = Self::phase_error(interval);
        if !Self::interval_valid(interval) {
            self
        } else if self.is_glitch(interval) {
            NtpServer {
                pps_glitch_count: smaller(self.pps_glitch_count + 1, u32::MAX as int) as u32,
                ..self
            }
        } else {
            NtpServer {
                freq_ppb: clamped_freq(self.freq_ppb + phase * SERVO_KI_PPB_PER_US),
                clock_anchor: self.anchor_after_interval(interval, edge_us),
                pps_offset_us: phase as i32,
                pps_jitter_ps: if self.pps_has_sample {
                    smoothed(
                        self.pps_jitter_ps as int,
                        mode6::magnitude(phase) * PICOS_PER_MICRO,
                    ) as u64
                } else {
                    (mode6::magnitude(phase) * PICOS_PER_MICRO) as u64
                },
                pps_has_sample: true,
                pps_locked: true,
                last_pps_monotonic_us: Some(edge_us),
                ..self
            }.synced_at(now)
        }
    }

    /// The server after a pulse.
    pub open spec fn after_pulse(
        self,
        pps_interval_us: Option<u32>,
        edge_us: i64,
        now: ClockReading,
    ) -> NtpServer {
        match pps_interval_us {
            None => self.after_first_pulse(edge_us, now),
            Some(interval) => self.after_interval(interval, edge_us, now),
        }
    }

    /// Whether a pulse sets the anchor from the last UTC second.
    pub open spec fn anchors_from_gps(self, pps_interval_us: Option<u32>, edge_us: i64) -> bool {
        match pps_interval_us {
            None => self.gps_fresh(edge_us),
            Some(interval) => Self::interval_valid(interval) && !self.is_glitch(interval)
                && self.clock_anchor is None,
        }
    }

    /// Take in a PPS pulse at `edge_us`: `None` for the first one, otherwise the
    /// interval since the one before.
    pub fn observe_pps_pulse(
        &mut self,
        pps_interval_us: Option<u32>,
        edge_us: i64,
        now: ClockReading,
    )
        requires
            old(self).wf(),
            now.wf(),
            old(self).anchors_from_gps(pps_interval_us, edge_us) ==> (
            old(self).last_gps_utc_seconds matches Some(utc) ==> utc
                + old(self).nmea_pps_fudge_s <= i64::MAX),
        ensures
            final(self).wf(),
            *final(self) == old(self).after_pulse(pps_interval_us, edge_us, now),
    {
        match pps_interval_us {
            None => {
                let gps_fresh: bool = match self.last_gps_utc_update_us {
                    Some(t) => saturating_sub(edge_us, t) < GPS_STALE_THRESHOLD_US,
                    None => false,
                };
                if !gps_fresh {
                    return;
                }
                if let Some(gps_utc) = self.last_gps_utc_seconds {
                    self.clock_anchor = Some(
                        ClockAnchor {
                            unix_seconds: gps_utc + self.nmea_pps_fudge_s,
                            monotonic_us: edge_us,
                        },
                    );
                    self.pps_locked = true;
                    self.last_pps_monotonic_us = Some(edge_us);
                    self.last_sync_ntp_ts = self.current_ntp_timestamp(now);
                }
            },
            Some(interval) => {
                if interval < PPS_MIN_INTERVAL_US || interval > PPS_MAX_INTERVAL_US {
                    return;
                }
                let phase_error_us: i64 = interval as i64 - 1_000_000;
                let size_us: i64 = if phase_error_us < 0 {
                    -phase_error_us
                } else {
                    phase_error_us
                };
                if self.pps_has_sample && size_us > PPS_OUTLIER_THRESHOLD_US {
                    self.pps_glitch_count = self.pps_glitch_count.saturating_add(1);
                    return;
                }
                let freq: i64 = self.freq_ppb as i64 + phase_error_us * SERVO_KI_PPB_PER_US;
                self.freq_ppb = if freq > SERVO_MAX_FREQ_PPB {
                    SERVO_MAX_FREQ_PPB as i32
                } else if freq < -SERVO_MAX_FREQ_PPB {
                    (-SERVO_MAX_FREQ_PPB) as i32
                } else {
                    freq as i32
                };
                match self.clock_anchor {
                    Some(anchor) => {
                        let size_tenth: i64 = size_us / SERVO_KP_DIVISOR;
                        let correction: i64 = if phase_error_us < 0 {
                            -size_tenth
                        } else {
                            size_tenth
                        };
                        self.clock_anchor = Some(
                            ClockAnchor {
                                unix_seconds: saturating_sum(anchor.unix_seconds, 1),
                                monotonic_us: saturating_sub(edge_us, correction),
                            },
                        );
                    },
                    None => {
                        if let Some(gps_utc) = self.last_gps_utc_seconds {
                            self.clock_anchor = Some(
                                ClockAnchor {
                                    unix_seconds: gps_utc + self.nmea_pps_fudge_s,
                                    monotonic_us: edge_us,
                                },
                            );
                        }
                    },
                }
                let sample_ps: u64 = size_us as u64 * (PICOS_PER_MICRO as u64);
                self.pps_offset_us = phase_error_us as i32;
                self.pps_jitter_ps = if self.pps_has_sample {
                    (4 * self.pps_jitter_ps + sample_ps + 2) / 5
                } else {
                    sample_ps
                };
                self.pps_has_sample = true;
                self.pps_locked = true;
                self.last_pps_monotonic_us = Some(edge_us);
                self.last_sync_ntp_ts = self.current_ntp_timestamp(now);
            },
        }
    }

    /// Time since the last accepted pulse; as large as can be if there was none.
    pub open spec fn pps_age_us(self, now_us: i64) -> i64 {
        match self.last_pps_monotonic_us {
            Some(t) => clock::sat_i64(now_us - t),
            None => i64::MAX,
        }
    }

    /// Whether GPS, PPS and anchor are all there.
    pub open spec fn fully_synced(self, gps_fix: bool, now_us: i64) -> bool {
        gps_fix && self.pps_age_us(now_us) < HOLDOVER_ENTRY_US && self.clock_anchor is Some
    }

    /// The error of a pulse: its smoothed size, but not less than the accuracy of
    /// the capture.
    pub open spec fn hw_accuracy_us(self) -> int {
        if self.pps_has_sample {
            larger(rounded_us(self.pps_jitter_ps as int), MIN_HW_ACCURACY_US as int)
        } else {
            MIN_HW_ACCURACY_US as int
        }
    }

    /// What the oscillator may have drifted since the last pulse, counting a second
    /// at most.
    pub open spec fn drift_us(self, now_us: i64) -> int {
        let scaled = PHI_US_PER_S * smaller(self.pps_age_us(now_us) as int, MICROS_PER_SEC as int);
        if scaled >= 0 {
            scaled / MICROS_PER_SEC as int
        } else {
            -((-scaled) / MICROS_PER_SEC as int)
        }
    }

    /// Root dispersion in holdover, for a given time since the last pulse.
    pub open spec fn holdover_disp_us(age_us: int) -> int {
        let seconds = larger(age_us - HOLDOVER_ENTRY_US, 0) / MICROS_PER_SEC as int;
        smaller(BASE_DISP_US + seconds * HOLDOVER_DISP_RATE_US_PER_SEC, MAX_DISP_US as int)
    }

    /// The root dispersion.
    pub open spec fn dispersion_us(self, gps_fix: bool, now_us: i64) -> int {
        if self.fully_synced(gps_fix, now_us) {
            self.hw_accuracy_us() + self.drift_us(now_us)
        } else if self.clock_anchor is Some {
            Self::holdover_disp_us(self.pps_age_us(now_us) as int)
        } else {
            MAX_DISP_US as int
        }
    }

    /// 1 while there is an anchor and the dispersion is below a second, else 16.
    pub open spec fn stratum_at(self, gps_fix: bool, now_us: i64) -> u8 {
        if self.fully_synced(gps_fix, now_us) || (self.clock_anchor is Some && self.dispersion_us(
            gps_fix,
            now_us,
        ) < HOLDOVER_UNSYNC_US) {
            1
        } else {
            16
        }
    }

    /// The error that the precision states, in picoseconds.
    pub open spec fn uncertainty_ps(self, gps_fix: bool, now_us: i64) -> int {
        if self.fully_synced(gps_fix, now_us) {
            larger(
                larger(
                    LOOP_POLL_UNCERTAINTY_US * PICOS_PER_MICRO,
                    if self.pps_has_sample {
                        self.pps_jitter_ps as int
                    } else {
                        0
                    },
                ),
                if self.proc_delay_has_sample {
                    self.proc_delay_ps as int
                } else {
                    0
                },
            )
        } else {
            self.dispersion_us(gps_fix, now_us) * PICOS_PER_MICRO
        }
    }

    /// What the state says in a response.
    pub open spec fn params_at(self, gps_fix: bool, now: ClockReading) -> DisciplineParams {
        let disp = self.dispersion_us(gps_fix, now.monotonic_us);
        let stratum = self.stratum_at(gps_fix, now.monotonic_us);
        DisciplineParams {
            stratum,
            leap: if stratum == 1 {
                self.pending_leap
            } else {
                3
            },
            root_disp_short: (disp * 0x1_0000 / 1_000_000) as u32,
            root_disp_us: disp as u32,
            ref_ts: self.last_sync_ntp_ts,
            current_ts: self.timestamp_at(now),
            precision: precision_of(self.uncertainty_ps(gps_fix, now.monotonic_us)),
        }
    }

    /// Compute the root dispersion.
    fn dispersion(&self, gps_fix: bool, now_us: i64) -> (r: i64)
        requires
            self.wf(),
        ensures
            r == self.dispersion_us(gps_fix, now_us),
            r <= MAX_DISP_US,
    {
        let age_us: i64 = self.pps_age(now_us);
        let has_anchor: bool = self.clock_anchor.is_some();
        let synced: bool = gps_fix && age_us < HOLDOVER_ENTRY_US && has_anchor;
        if synced {
            let hw: i64 = self.hw_accuracy();
            let capped: i64 = if age_us < MICROS_PER_SEC {
                age_us
            } else {
                MICROS_PER_SEC
            };
            let scaled: i128 = PHI_US_PER_S as i128 * capped as i128;
            let drift: i128 = if scaled >= 0 {
                scaled / MICROS_PER_SEC as i128
            } else {
                -((-scaled) / MICROS_PER_SEC as i128)
            };
            hw + drift as i64
        } else if has_anchor {
            holdover_disp(age_us)
        } else {
            MAX_DISP_US
        }
    }

    /// Compute what the state says in a response.
    pub fn discipline_params(&self, gps_fix: bool, now: ClockReading) -> (r: DisciplineParams)
        requires
            self.wf(),
            now.wf(),
            self.dispersion_us(gps_fix, now.monotonic_us) >= 0,
        ensures
            r == self.params_at(gps_fix, now),
    {
        let age_us: i64 = self.pps_age(now.monotonic_us);
        let has_anchor: bool = self.clock_anchor.is_some();
        let synced: bool = gps_fix && age_us < HOLDOVER_ENTRY_US && has_anchor;
        let disp: i64 = self.dispersion(gps_fix, now.monotonic_us);
        let stratum: u8 = if synced || (has_anchor && disp < HOLDOVER_UNSYNC_US) {
            1
        } else {
            16
        };
        let uncertainty_ps: u128 = if synced {
            let mut worst: u128 = LOOP_POLL_UNCERTAINTY_US as u128 * PICOS_PER_MICRO;
            if self.pps_has_sample && self.pps_jitter_ps as u128 > worst {
                worst = self.pps_jitter_ps as u128;
            }
            if self.proc_delay_has_sample && self.proc_delay_ps > worst {
                worst = self.proc_delay_ps;
            }
            worst
        } else {
            disp as u128 * PICOS_PER_MICRO
        };
        assert(uncertainty_ps == self.uncertainty_ps(gps_fix, now.monotonic_us));
        DisciplineParams {
            stratum,
            leap: if stratum == 1 {
                self.pending_leap
            } else {
                3
            },
            root_disp_short: (disp as u64 * 0x1_0000 / 1_000_000) as u32,
            root_disp_us: disp as u32,
            ref_ts: self.last_sync_ntp_ts,
            current_ts: self.current_ntp_timestamp(now),
            precision: ntp_precision_from_uncertainty_ps(uncertainty_ps),
        }
    }

    /// Compute the time since the last accepted pulse.
    fn pps_age(&self, now_us: i64) -> (r: i64)
        ensures
            r == self.pps_age_us(now_us),
    {
        match self.last_pps_monotonic_us {
            Some(t) => saturating_sub(now_us, t),
            None => i64::MAX,
        }
    }

    /// Compute the error of a pulse.
    fn hw_accuracy(&self) -> (r: i64)
        requires
            self.wf(),
        ensures
            r == self.hw_accuracy_us(),
            MIN_HW_ACCURACY_US <= r <= 200_000,
    {
        if self.pps_has_sample {
            let rounded: u64 = (self.pps_jitter_ps + PICOS_PER_MICRO as u64 / 2) / (
            PICOS_PER_MICRO as u64);
            if rounded as i64 >= MIN_HW_ACCURACY_US {
                rounded as i64
            } else {
                MIN_HW_ACCURACY_US
            }
        } else {
            MIN_HW_ACCURACY_US
        }
    }

    /// The state of the clock discipline: unsynchronised wherever the stratum is 16.
    pub open spec fn state_at(self, gps_fix: bool, now_us: i64) -> DisciplineState {
        if self.fully_synced(gps_fix, now_us) {
            DisciplineState::Locked
        } else if self.stratum_at(gps_fix, now_us) == 1 {
            DisciplineState::Holdover
        } else {
            DisciplineState::Unsync
        }
    }

    /// Tell the state of the clock discipline.
    pub fn discipline_state(&self, gps_fix: bool, now_us: i64) -> (r: DisciplineState)
        ensures
            r == self.state_at(gps_fix, now_us),
    {
        let age_us: i64 = self.pps_age(now_us);
        let has_anchor: bool = self.clock_anchor.is_some();
        if gps_fix && age_us < HOLDOVER_ENTRY_US && has_anchor {
            DisciplineState::Locked
        } else if has_anchor && holdover_disp(age_us) < HOLDOVER_UNSYNC_US {
            DisciplineState::Holdover
        } else {
            DisciplineState::Unsync
        }
    }

    /// The state of the server in figures.
    pub open spec fn snapshot_at(self, gps_fix: bool, now: ClockReading) -> NtpSnapshot {
        let dp = self.params_at(gps_fix, now);
        NtpSnapshot {
            stratum: dp.stratum,
            state: self.state_at(gps_fix, now.monotonic_us),
            freq_ppb: self.freq_ppb,
            pps_offset_us: self.pps_offset_us,
            pps_jitter_ps: self.pps_jitter_ps,
            root_disp_us: dp.root_disp_us,
            served: self.served,
            rate_limited: self.rate_limited_total,
            acl_blocked: self.acl_blocked_total,
            pps_glitch_count: self.pps_glitch_count,
            leap_indicator: dp.leap,
            proc_delay_ps: if self.proc_delay_has_sample {
                self.proc_delay_ps
            } else {
                0
            },
            proc_delay_has_sample: self.proc_delay_has_sample,
        }
    }

    /// Describe the state of the server.
    pub fn ntp_snapshot(&self, gps_fix: bool, now: ClockReading) -> (r: NtpSnapshot)
        requires
            self.wf(),
            now.wf(),
            self.dispersion_us(gps_fix, now.monotonic_us) >= 0,
        ensures
            r == self.snapshot_at(gps_fix, now),
    {
        let dp = self.discipline_params(gps_fix, now);
        NtpSnapshot {
            stratum: dp.stratum,
            state: self.discipline_state(gps_fix, now.monotonic_us),
            freq_ppb: self.freq_ppb,
            pps_offset_us: self.pps_offset_us,
            pps_jitter_ps: self.pps_jitter_ps,
            root_disp_us: dp.root_disp_us,
            served: self.served,
            rate_limited: self.rate_limited_total,
            acl_blocked: self.acl_blocked_total,
            pps_glitch_count: self.pps_glitch_count,
            leap_indicator: dp.leap,
            proc_delay_ps: if self.proc_delay_has_sample {
                self.proc_delay_ps
            } else {
                0
            },
            proc_delay_has_sample: self.proc_delay_has_sample,
        }
    }

    /// What the servo reports in control messages.
    pub open spec fn metrics(self) -> ServoMetrics {
        ServoMetrics {
            pps_offset_us: self.pps_offset_us,
            pps_jitter_ps: self.pps_jitter_ps,
            proc_delay_ps: self.proc_delay_ps,
            freq_ppb: self.freq_ppb,
        }
    }

    /// Whether the access list lets a source through. Only IPv4 sources are looked
    /// up.
    pub open spec fn passes_acl(self, source: Option<u32>) -> bool {
        source matches Some(addr) ==> self.acl.permits(addr)
    }

    /// Whether a source has waited long enough since its last accepted request.
    /// Only IPv4 sources are tracked.
    pub open spec fn passes_limiter(self, source: Option<u32>, now_us: i64) -> bool {
        source matches Some(addr) ==> protection::is_due(self.rate_limiter@, addr, now_us)
    }

    /// What an admitted request, from a source that the access list lets through,
    /// does to the rate limiter.
    pub open spec fn limiter_step(
        self,
        source: Option<u32>,
        now_us: i64,
        after: NtpServer,
    ) -> bool {
        match source {
            Some(addr) => protection::rate_step(
                self.rate_limiter@,
                addr,
                now_us,
                self.passes_limiter(source, now_us),
                after.rate_limiter@,
            ),
            None => after.rate_limiter == self.rate_limiter,
        }
    }

    /// Whether a packet is a request: a control message of at least a header, or a
    /// time request of at least 48 bytes.
    pub open spec fn is_request(packet: Seq<u8>) -> bool {
        packet.len() > 0 && packet.len() >= if packet[0] % 8 == 6 {
            NTP_CONTROL_HEADER_LEN as int
        } else {
            NTP_PACKET_LEN as int
        }
    }

    /// Whether a packet gets a proper answer.
    pub open spec fn is_answered(self, packet: Seq<u8>, source: Option<u32>, now_us: i64) -> bool {
        Self::is_request(packet) && self.passes_acl(source) && self.passes_limiter(source, now_us)
    }

    /// Tell whether a packet would get a proper answer.
    pub fn answers(&self, packet: &[u8], source: Option<u32>, now_us: i64) -> (r: bool)
        requires
            self.wf(),
        ensures
            r == self.is_answered(packet@, source, now_us),
    {
        if packet.len() == 0 {
            return false;
        }
        let least: usize = if packet[0] % 8 == 6 {
            NTP_CONTROL_HEADER_LEN
        } else {
            NTP_PACKET_LEN
        };
        packet.len() >= least && match source {
            Some(addr) => self.acl.allows(addr) && self.rate_limiter.due(addr, now_us),
            None => true,
        }
    }

    /// Tell whether the dispersion is a number that can be stated. It is not while
    /// locked to a pulse that lies too far ahead of the clock.
    pub fn has_dispersion(&self, gps_fix: bool, now_us: i64) -> (r: bool)
        requires
            self.wf(),
        ensures
            r == (self.dispersion_us(gps_fix, now_us) >= 0),
    {
        self.dispersion(gps_fix, now_us) >= 0
    }

    /// Decide whether the rate limiter lets a source through, and remember it if so.
    fn try_rate_limit(&mut self, source: Option<u32>, now_us: i64) -> (passes: bool)
        requires
            old(self).wf(),
            old(self).rate_limited_total < u64::MAX,
        ensures
            final(self).wf(),
            passes == old(self).passes_limiter(source, now_us),
            old(self).limiter_step(source, now_us, *final(self)),
            *final(self) == (NtpServer {
                rate_limiter: final(self).rate_limiter,
                rate_limited_total: (old(self).rate_limited_total + (if passes {
                    0int
                } else {
                    1
                })) as u64,
                ..*old(self)
            }),
    {
        match source {
            None => true,
            Some(addr) => {
                if self.rate_limiter.check(addr, now_us) {
                    true
                } else {
                    self.rate_limited_total = self.rate_limited_total + 1;
                    false
                }
            },
        }
    }

    /// Decide on a received packet and say what to send.
    ///
    /// `source` is the IPv4 address of the sender, if it has one. `received` is the
    /// clock reading taken when the packet came in, `now` a later one.
    ///
    /// Packets from sources that the access list does not let through are dropped
    /// and counted, and so are control messages that come too soon. Time requests
    /// that come too soon are answered with a kiss of death. Other requests are
    /// answered; what is neither is ignored.
    pub fn handle_packet(
        &mut self,
        packet: &[u8],
        source: Option<u32>,
        gps_fix: bool,
        received: ClockReading,
        now: ClockReading,
    ) -> (action: PacketAction)
        requires
            old(self).wf(),
            received.wf(),
            now.wf(),
            old(self).rate_limited_total < u64::MAX,
            old(self).acl_blocked_total < u64::MAX,
            old(self).is_answered(packet@, source, now.monotonic_us) ==> old(self).dispersion_us(
                gps_fix,
                now.monotonic_us,
            ) >= 0,
        ensures
            final(self).wf(),
            packet@.len() == 0 ==> action is Ignore && *final(self) == *old(self),
            packet@.len() > 0 && !old(self).passes_acl(source) ==> action is Ignore && *final(self)
                == (NtpServer {
                acl_blocked_total: (old(self).acl_blocked_total + 1) as u64,
                ..*old(self)
            }),
            packet@.len() > 0 && old(self).passes_acl(source) && !Self::is_request(packet@) ==> {
                &&& action is Ignore
                &&& *final(self) == *old(self)
            },
            Self::is_request(packet@) && old(self).passes_acl(source) ==> {
                let passes = old(self).passes_limiter(source, now.monotonic_us);
                &&& old(self).limiter_step(source, now.monotonic_us, *final(self))
                &&& *final(self) == (NtpServer {
                    rate_limiter: final(self).rate_limiter,
                    rate_limited_total: (old(self).rate_limited_total + (if passes {
                        0int
                    } else {
                        1
                    })) as u64,
                    ..*old(self)
                })
                &&& if packet@[0] % 8 == 6 {
                    if passes {
                        action matches PacketAction::SendControl(resp) && resp@
                            == mode6::control_response(
                            packet@,
                            packet::version_of(packet@[0]),
                            old(self).params_at(gps_fix, now),
                            old(self).metrics(),
                        )
                    } else {
                        action is Ignore
                    }
                } else {
                    if passes {
                        action matches PacketAction::SendTime(resp) && resp@ == packet::response(
                            packet@.take(48),
                            old(self).params_at(gps_fix, now),
                            old(self).timestamp_at(received),
                        )
                    } else {
                        action matches PacketAction::SendKod(resp) && resp@ == packet::kod_response(
                            packet@.take(48),
                            packet::version_of(packet@[0]),
                        )
                    }
                }
            },
    {
        if packet.len() == 0 {
            return PacketAction::Ignore;
        }
        let receive_ts: u64 = self.current_ntp_timestamp(received);
        if let Some(addr) = source {
            if !self.acl.allows(addr) {
                self.acl_blocked_total = self.acl_blocked_total + 1;
                return PacketAction::Ignore;
            }
        }
        let mode: u8 = packet[0] % 8;
        let version: u8 = packet[0] / 8 % 8;
        if mode == 6 {
            if packet.len() < NTP_CONTROL_HEADER_LEN {
                return PacketAction::Ignore;
            }
            if !self.try_rate_limit(source, now.monotonic_us) {
                return PacketAction::Ignore;
            }
            let dp = self.discipline_params(gps_fix, now);
            let metrics = ServoMetrics {
                pps_offset_us: self.pps_offset_us,
                pps_jitter_ps: self.pps_jitter_ps,
                proc_delay_ps: self.proc_delay_ps,
                freq_ppb: self.freq_ppb,
            };
            PacketAction::SendControl(build_mode6_response(packet, version, &dp, &metrics))
        } else {
            if packet.len() < NTP_PACKET_LEN {
                return PacketAction::Ignore;
            }
            let request = first_48(packet);
            if !self.try_rate_limit(source, now.monotonic_us) {
                return PacketAction::SendKod(build_kod_response(&request, version));
            }
            let dp = self.discipline_params(gps_fix, now);
            PacketAction::SendTime(build_response(&request, &dp, receive_ts))
        }
    }

    /// Note that an answer to a control message was sent.
    pub fn control_sent(&mut self)
        requires
            old(self).served < u64::MAX,
        ensures
            *final(self) == (NtpServer { served: (old(self).served + 1) as u64, ..*old(self) }),
            old(self).wf() ==> final(self).wf(),
    {
        self.served = self.served + 1;
    }

    /// Note that an answer to a time request was sent, and how long it took.
    ///
    /// The time counts as a microsecond at least and is smoothed.
    pub fn time_sent(&mut self, started_us: i64, finished_us: i64)
        requires
            old(self).wf(),
            old(self).served < u64::MAX,
        ensures
            final(self).wf(),
            *final(self) == (NtpServer {
                served: (old(self).served + 1) as u64,
                proc_delay_ps: ({
                    let sample = larger(clock::sat_i64(finished_us - started_us) as int, 1)
                        * PICOS_PER_MICRO;
                    if old(self).proc_delay_has_sample {
                        smoothed(old(self).proc_delay_ps as int, sample) as u128
                    } else {
                        sample as u128
                    }
                }),
                proc_delay_has_sample: true,
                ..*old(self)
            }),
    {
        let took: i64 = saturating_sub(finished_us, started_us);
        let sample_us: i64 = if took >= 1 {
            took
        } else {
            1
        };
        let sample_ps: u128 = sample_us as u128 * PICOS_PER_MICRO;
        self.proc_delay_ps = if self.proc_delay_has_sample {
            (4 * self.proc_delay_ps + sample_ps + 2) / 5
        } else {
            sample_ps
        };
        self.proc_delay_has_sample = true;
        self.served = self.served + 1;
    }
}

/// What to do with a received packet.
pub enum PacketAction {
    /// Send nothing.
    Ignore,
    /// Send a kiss of death; whether it goes out does not matter.
    SendKod([u8; NTP_PACKET_LEN]),
    /// Send an answer to a control message, and then call
    /// [`NtpServer::control_sent`].
    SendControl(Vec<u8>),
    /// Put in the transmit timestamp with [`packet::stamp_transmit`], send an answer
    /// to a time request, and then call [`NtpServer::time_sent`].
    SendTime([u8; NTP_PACKET_LEN]),
}

/// Copy the first 48 bytes of a packet.
fn first_48(packet: &[u8]) -> (r: [u8; NTP_PACKET_LEN])
    requires
        packet@.len() >= NTP_PACKET_LEN,
    ensures
        r@ == packet@.take(48),
{
    let mut r: [u8; NTP_PACKET_LEN] = [0; NTP_PACKET_LEN];
    let mut i: usize = 0;
    while i < NTP_PACKET_LEN
        invariant
            i <= NTP_PACKET_LEN <= packet@.len(),
            forall|j: int| 0 <= j < i ==> r@[j] == packet@[j],
        decreases NTP_PACKET_LEN - i,
    {
        r[i] = packet[i];
        i = i + 1;
    }
    assert(r@ == packet@.take(48));
    r
}

} // verus!
