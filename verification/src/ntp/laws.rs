//! What holds of the server whatever comes in.

use super::clock::{ClockAnchor, ClockReading, MICROS_PER_SEC};
use super::{DisciplineState, NtpServer, BASE_DISP_US, HOLDOVER_DISP_RATE_US_PER_SEC,
    HOLDOVER_ENTRY_US, HOLDOVER_UNSYNC_US, MAX_DISP_US, PHI_US_PER_S, SERVO_MAX_FREQ_PPB};
use vstd::prelude::*;

verus! {

/// No pulse drives the learned frequency out of the range of 500 parts per million
/// on either side.
pub proof fn law_frequency_is_bounded(
    server: NtpServer,
    interval: Option<u32>,
    edge_us: i64,
    now: ClockReading,
)
    requires
        -SERVO_MAX_FREQ_PPB <= server.freq_ppb <= SERVO_MAX_FREQ_PPB,
    ensures
        -SERVO_MAX_FREQ_PPB <= server.after_pulse(interval, edge_us, now).freq_ppb
            <= SERVO_MAX_FREQ_PPB,
{
}

/// A pulse whose interval is too short, too long or a glitch moves neither the
/// anchor nor the learned frequency, and does not count as a sign of life.
pub proof fn law_rejected_pulse_changes_nothing(
    server: NtpServer,
    interval: u32,
    edge_us: i64,
    now: ClockReading,
)
    requires
        !NtpServer::interval_valid(interval) || server.is_glitch(interval),
    ensures
        ({
            let after = server.after_pulse(Some(interval), edge_us, now);
            &&& after.clock_anchor == server.clock_anchor
            &&& after.freq_ppb == server.freq_ppb
            &&& after.last_pps_monotonic_us == server.last_pps_monotonic_us
            &&& after.last_sync_ntp_ts == server.last_sync_ntp_ts
            &&& after.pps_jitter_ps == server.pps_jitter_ps
            &&& after.pps_offset_us == server.pps_offset_us
            &&& after.pps_has_sample == server.pps_has_sample
            &&& after.timestamp_at(now) == server.timestamp_at(now)
        }),
{
}

/// A glitch is counted, and nothing but a glitch is.
pub proof fn law_glitches_are_counted(
    server: NtpServer,
    interval: Option<u32>,
    edge_us: i64,
    now: ClockReading,
)
    requires
        server.pps_glitch_count < u32::MAX,
    ensures
        server.after_pulse(interval, edge_us, now).pps_glitch_count == server.pps_glitch_count + (
        if interval is Some && NtpServer::interval_valid(interval->0) && server.is_glitch(
            interval->0,
        ) {
            1int
        } else {
            0
        }),
{
}

/// A pulse exactly a second after the one before leaves the frequency as it is and
/// sets the anchor to the next second at the pulse.
pub proof fn law_perfect_pulse_advances_one_second(
    server: NtpServer,
    anchor: ClockAnchor,
    edge_us: i64,
    now: ClockReading,
)
    requires
        server.wf(),
        server.clock_anchor == Some(anchor),
        anchor.unix_seconds < i64::MAX,
    ensures
        ({
            let after = server.after_pulse(Some(1_000_000), edge_us, now);
            &&& after.freq_ppb == server.freq_ppb
            &&& after.clock_anchor == Some(
                ClockAnchor {
                    unix_seconds: (anchor.unix_seconds + 1) as i64,
                    monotonic_us: edge_us,
                },
            )
            &&& after.last_pps_monotonic_us == Some(edge_us)
            &&& after.last_sync_ntp_ts == after.timestamp_at(now)
        }),
{
}

/// A first pulse anchors the clock to the second after the last UTC second, if that
/// one is less than two seconds old; otherwise it changes nothing.
pub proof fn law_first_pulse_needs_fresh_gps(
    server: NtpServer,
    utc: i64,
    update_us: i64,
    edge_us: i64,
    now: ClockReading,
)
    requires
        server.last_gps_utc_seconds == Some(utc),
        server.last_gps_utc_update_us == Some(update_us),
        utc + server.nmea_pps_fudge_s <= i64::MAX,
    ensures
        edge_us - update_us < 2_000_000 ==> server.after_pulse(None, edge_us, now).clock_anchor
            == Some(
            ClockAnchor {
                unix_seconds: (utc + server.nmea_pps_fudge_s) as i64,
                monotonic_us: edge_us,
            },
        ),
        edge_us - update_us >= 2_000_000 ==> server.after_pulse(None, edge_us, now) == server,
{
}

/// A UTC second that agrees with the anchor to within a second does not move it.
/// Any other becomes the new anchor.
pub proof fn law_consistent_utc_keeps_anchor(
    server: NtpServer,
    anchor: ClockAnchor,
    utc: i64,
    now_us: i64,
)
    requires
        server.clock_anchor == Some(anchor),
    ensures
        server.after_gps_utc(utc, now_us).clock_anchor == if -1 <= NtpServer::predicted_utc(
            anchor,
            now_us,
        ) - utc <= 1 {
            Some(anchor)
        } else {
            Some(ClockAnchor { unix_seconds: utc, monotonic_us: now_us })
        },
{
}

/// The stratum is 1 or 16. It is 16 exactly when the leap indicator is 3, and exactly
/// when the state is unsynchronised. Otherwise the leap indicator is the announced one.
pub proof fn law_stratum_and_leap_agree(server: NtpServer, gps_fix: bool, now: ClockReading)
    requires
        server.wf(),
    ensures
        ({
            let dp = server.params_at(gps_fix, now);
            &&& dp.stratum == 1 || dp.stratum == 16
            &&& dp.stratum == 16 <==> dp.leap == 3
            &&& dp.stratum == 16 <==> server.state_at(gps_fix, now.monotonic_us)
                == DisciplineState::Unsync
            &&& dp.stratum == 1 ==> dp.leap == server.pending_leap
        }),
{
}

/// Without an anchor the server is unsynchronised, whatever GPS says.
pub proof fn law_no_anchor_is_unsync(server: NtpServer, gps_fix: bool, now: ClockReading)
    requires
        server.clock_anchor is None,
    ensures
        server.params_at(gps_fix, now).stratum == 16,
        server.params_at(gps_fix, now).leap == 3,
        server.dispersion_us(gps_fix, now.monotonic_us) == MAX_DISP_US,
        server.state_at(gps_fix, now.monotonic_us) == DisciplineState::Unsync,
{
}

/// While locked, the dispersion is that of the pulse and at most fifteen
/// microseconds more.
pub proof fn law_locked_dispersion(server: NtpServer, now_us: i64)
    requires
        server.wf(),
        server.fully_synced(true, now_us),
        server.last_pps_monotonic_us->0 <= now_us,
    ensures
        server.hw_accuracy_us() <= server.dispersion_us(true, now_us) <= server.hw_accuracy_us()
            + PHI_US_PER_S,
        100 <= server.dispersion_us(true, now_us) <= 200_015,
        server.state_at(true, now_us) == DisciplineState::Locked,
        server.stratum_at(true, now_us) == 1,
{
}

/// In holdover the dispersion does not shrink as time passes, starts from a
/// millisecond and never exceeds two seconds.
pub proof fn law_holdover_dispersion_grows(earlier_age_us: int, later_age_us: int)
    requires
        earlier_age_us <= later_age_us,
    ensures
        BASE_DISP_US <= NtpServer::holdover_disp_us(earlier_age_us)
            <= NtpServer::holdover_disp_us(later_age_us) <= MAX_DISP_US,
{
    let a = super::larger(earlier_age_us - HOLDOVER_ENTRY_US, 0) / MICROS_PER_SEC as int;
    let b = super::larger(later_age_us - HOLDOVER_ENTRY_US, 0) / MICROS_PER_SEC as int;
    assert(0 <= a <= b);
}

/// In holdover the dispersion grows by half a millisecond with every second.
pub proof fn law_holdover_rate(seconds: nat)
    requires
        BASE_DISP_US + seconds * HOLDOVER_DISP_RATE_US_PER_SEC <= MAX_DISP_US,
    ensures
        NtpServer::holdover_disp_us(HOLDOVER_ENTRY_US + seconds * MICROS_PER_SEC) == BASE_DISP_US
            + seconds * HOLDOVER_DISP_RATE_US_PER_SEC,
{
}

/// A server that has an anchor but is not locked is in holdover and keeps stratum 1
/// for 1998 seconds after holdover begins, and no longer: then it is unsynchronised.
pub proof fn law_holdover_window(server: NtpServer, gps_fix: bool, now_us: i64)
    requires
        server.clock_anchor is Some,
        !server.fully_synced(gps_fix, now_us),
    ensures
        server.stratum_at(gps_fix, now_us) == 1 <==> server.pps_age_us(now_us) < HOLDOVER_ENTRY_US
            + 1998 * MICROS_PER_SEC,
        server.stratum_at(gps_fix, now_us) == 16 <==> server.dispersion_us(gps_fix, now_us)
            >= HOLDOVER_UNSYNC_US,
        server.state_at(gps_fix, now_us) == if server.stratum_at(gps_fix, now_us) == 1 {
            DisciplineState::Holdover
        } else {
            DisciplineState::Unsync
        },
{
}

/// An accepted pulse brings stratum 1 back at once, and with a GPS fix the lock,
/// however long PPS was gone.
pub proof fn law_accepted_pulse_restores_service(
    server: NtpServer,
    interval: u32,
    edge_us: i64,
    pulse_now: ClockReading,
    gps_fix: bool,
    now_us: i64,
)
    requires
        server.wf(),
        NtpServer::interval_valid(interval),
        !server.is_glitch(interval),
        server.clock_anchor is Some || server.last_gps_utc_seconds is Some,
        edge_us <= now_us < edge_us + HOLDOVER_ENTRY_US,
    ensures
        ({
            let after = server.after_pulse(Some(interval), edge_us, pulse_now);
            &&& after.stratum_at(gps_fix, now_us) == 1
            &&& gps_fix ==> after.state_at(gps_fix, now_us) == DisciplineState::Locked
        }),
{
}

/// Once there is an anchor, neither a pulse nor a UTC second takes it away.
pub proof fn law_anchor_is_never_lost(
    server: NtpServer,
    interval: Option<u32>,
    edge_us: i64,
    now: ClockReading,
    utc: i64,
    now_us: i64,
)
    requires
        server.clock_anchor is Some,
    ensures
        server.after_pulse(interval, edge_us, now).clock_anchor is Some,
        server.after_gps_utc(utc, now_us).clock_anchor is Some,
{
}

/// The stated precision is the binary logarithm of the error in seconds, rounded
/// down, as far as it lies between -20 and -4.
pub proof fn law_precision_is_logarithm(ps: int)
    ensures
        -20 <= super::precision_of(ps) <= -4,
        super::precision_of(ps) > -20 ==> super::reaches_exponent(ps, super::precision_of(ps) as int),
        super::precision_of(ps) < -4 ==> !super::reaches_exponent(
            ps,
            super::precision_of(ps) + 1,
        ),
{
    lemma_precision_exponent(ps, -4);
}

/// The exponent found is the largest that the error reaches.
proof fn lemma_precision_exponent(ps: int, from: int)
    requires
        -20 <= from <= -4,
        from < -4 ==> !super::reaches_exponent(ps, from + 1),
    ensures
        ({
            let e = super::precision_exponent(ps, from);
            &&& -20 <= e <= from
            &&& e > -20 ==> super::reaches_exponent(ps, e)
            &&& e < -4 ==> !super::reaches_exponent(ps, e + 1)
        }),
    decreases from + 20,
{
    if from > -20 && !super::reaches_exponent(ps, from) {
        lemma_precision_exponent(ps, from - 1);
    }
}

/// Every pulse between 0.8 and 1.2 seconds after the one before begins the next second,
/// unless the servo has run before and the pulse is off by more than 50 milliseconds.
/// The anchor lies a tenth of the phase error, rounded towards zero, before the pulse.
pub proof fn law_every_accepted_pulse_begins_the_next_second(
    server: NtpServer,
    anchor: ClockAnchor,
    interval: u32,
    edge_us: i64,
    now: ClockReading,
)
    requires
        server.clock_anchor == Some(anchor),
        anchor.unix_seconds < i64::MAX,
        800_000 <= interval <= 1_200_000,
        server.pps_has_sample ==> 950_000 <= interval <= 1_050_000,
        i64::MIN + 20_000 <= edge_us <= i64::MAX - 20_000,
    ensures
        ({
            let phase = interval - 1_000_000;
            let next = server.after_pulse(Some(interval), edge_us, now).clock_anchor;
            let shift = edge_us - next->0.monotonic_us;
            &&& next is Some
            &&& next->0.unix_seconds == anchor.unix_seconds + 1
            &&& phase >= 0 ==> 0 <= 10 * shift <= phase < 10 * shift + 10
            &&& phase <= 0 ==> 10 * shift - 10 < phase <= 10 * shift <= 0
        }),
{
}

/// A pulse that comes too early, too late, or is off by more than 50 milliseconds once
/// the servo has run, is left out: at most the count of glitches grows.
pub proof fn law_bad_pulses_are_left_out(
    server: NtpServer,
    interval: u32,
    edge_us: i64,
    now: ClockReading,
)
    ensures
        ({
            let after = server.after_pulse(Some(interval), edge_us, now);
            &&& interval < 800_000 || interval > 1_200_000 ==> after == server
            &&& 800_000 <= interval <= 1_200_000 && server.pps_has_sample && (interval < 950_000
                || interval > 1_050_000) ==> after == (NtpServer {
                pps_glitch_count: after.pps_glitch_count,
                ..server
            }) && (server.pps_glitch_count < u32::MAX ==> after.pps_glitch_count
                == server.pps_glitch_count + 1)
        }),
{
}

/// An accepted pulse teaches the servo ten parts per billion for each microsecond of
/// phase error, within 500 parts per million, and is what the measurements speak of.
/// Nothing else about the server changes.
pub proof fn law_servo_learns_from_accepted_pulse(
    server: NtpServer,
    interval: u32,
    edge_us: i64,
    now: ClockReading,
)
    requires
        server.wf(),
        800_000 <= interval <= 1_200_000,
        server.pps_has_sample ==> 950_000 <= interval <= 1_050_000,
    ensures
        ({
            let after = server.after_pulse(Some(interval), edge_us, now);
            let phase = interval - 1_000_000;
            let size = if phase < 0 {
                -phase
            } else {
                phase
            };
            let freq = server.freq_ppb + 10 * phase;
            let spread = 5 * after.pps_jitter_ps - (4 * server.pps_jitter_ps + 1_000_000 * size);
            &&& -500_000 <= freq <= 500_000 ==> after.freq_ppb == freq
            &&& freq > 500_000 ==> after.freq_ppb == 500_000
            &&& freq < -500_000 ==> after.freq_ppb == -500_000
            &&& after.pps_offset_us == phase
            &&& !server.pps_has_sample ==> after.pps_jitter_ps == 1_000_000 * size
            &&& server.pps_has_sample ==> -2 <= spread <= 2
            &&& after.pps_has_sample
            &&& after.pps_locked
            &&& after.last_pps_monotonic_us == Some(edge_us)
            &&& after.last_sync_ntp_ts == after.timestamp_at(now)
            &&& after == (NtpServer {
                freq_ppb: after.freq_ppb,
                clock_anchor: after.clock_anchor,
                pps_offset_us: after.pps_offset_us,
                pps_jitter_ps: after.pps_jitter_ps,
                pps_has_sample: after.pps_has_sample,
                pps_locked: after.pps_locked,
                last_pps_monotonic_us: after.last_pps_monotonic_us,
                last_sync_ntp_ts: after.last_sync_ntp_ts,
                ..server
            })
        }),
{
}

/// Without an anchor an accepted pulse is anchored to the last UTC second, moved on by
/// the lead of the sentences. Without either there is still no anchor.
pub proof fn law_accepted_pulse_without_anchor(
    server: NtpServer,
    interval: u32,
    edge_us: i64,
    now: ClockReading,
)
    requires
        server.clock_anchor is None,
        800_000 <= interval <= 1_200_000,
        server.pps_has_sample ==> 950_000 <= interval <= 1_050_000,
        server.last_gps_utc_seconds matches Some(utc) ==> i64::MIN <= utc
            + server.nmea_pps_fudge_s <= i64::MAX,
    ensures
        ({
            let next = server.after_pulse(Some(interval), edge_us, now).clock_anchor;
            match server.last_gps_utc_seconds {
                Some(utc) => next is Some && next->0.unix_seconds == utc + server.nmea_pps_fudge_s
                    && next->0.monotonic_us == edge_us,
                None => next is None,
            }
        }),
{
}

/// A first pulse without any UTC second changes nothing. One that is taken changes the
/// anchor, the lock and the times of the last pulse, and nothing else.
pub proof fn law_first_pulse_changes_the_anchor_alone(
    server: NtpServer,
    edge_us: i64,
    now: ClockReading,
)
    ensures
        ({
            let after = server.after_pulse(None, edge_us, now);
            &&& server.last_gps_utc_seconds is None || server.last_gps_utc_update_us is None
                ==> after == server
            &&& after == (NtpServer {
                clock_anchor: after.clock_anchor,
                pps_locked: after.pps_locked,
                last_pps_monotonic_us: after.last_pps_monotonic_us,
                last_sync_ntp_ts: after.last_sync_ntp_ts,
                ..server
            })
            &&& after != server ==> after.pps_locked && after.last_pps_monotonic_us == Some(edge_us)
                && after.last_sync_ntp_ts == after.timestamp_at(now)
        }),
{
}

/// A UTC second is always remembered with the time it came in. It moves the anchor
/// exactly if there is none, or if the anchor and the time since then tell a second that
/// is off by more than one. Nothing else about the server changes.
pub proof fn law_utc_second_sets_the_clock(server: NtpServer, utc: i64, now_us: i64)
    ensures
        ({
            let after = server.after_gps_utc(utc, now_us);
            let fresh = Some(ClockAnchor { unix_seconds: utc, monotonic_us: now_us });
            &&& after.last_gps_utc_seconds == Some(utc)
            &&& after.last_gps_utc_update_us == Some(now_us)
            &&& server.clock_anchor is None ==> after.clock_anchor == fresh
            &&& server.clock_anchor matches Some(anchor) ==> {
                let passed = now_us - anchor.monotonic_us;
                let off = anchor.unix_seconds + passed / 1_000_000 - utc;
                i64::MIN <= passed <= i64::MAX && i64::MIN <= off + utc <= i64::MAX
                    ==> after.clock_anchor == if -1 <= off <= 1 {
                    server.clock_anchor
                } else {
                    fresh
                }
            }
            &&& after == (NtpServer {
                last_gps_utc_seconds: after.last_gps_utc_seconds,
                last_gps_utc_update_us: after.last_gps_utc_update_us,
                clock_anchor: after.clock_anchor,
                ..server
            })
        }),
{
}

/// The time that is served is that of the anchor as soon as there is one, and that of
/// the wall clock before.
pub proof fn law_anchor_takes_over_from_the_wall_clock(server: NtpServer, now: ClockReading)
    ensures
        server.clock_anchor is None ==> server.timestamp_at(now) == super::clock::wall_timestamp(
            now,
        ),
        server.clock_anchor matches Some(anchor) ==> server.timestamp_at(now)
            == super::clock::anchored_timestamp(anchor, server.freq_ppb, now.monotonic_us),
{
}

/// With a GPS fix and a pulse within the last ten seconds the dispersion is the smoothed
/// error of the pulses, rounded to a microsecond and not less than a hundred of them, and
/// fifteen microseconds for each second since the pulse, counting one at most.
pub proof fn law_dispersion_while_locked(server: NtpServer, edge_us: i64, now_us: i64)
    requires
        server.wf(),
        server.clock_anchor is Some,
        server.last_pps_monotonic_us == Some(edge_us),
        0 <= now_us - edge_us < 10_000_000,
    ensures
        ({
            let age = if now_us - edge_us < 1_000_000 {
                now_us - edge_us
            } else {
                1_000_000
            };
            let disp = server.dispersion_us(true, now_us);
            let drift = 15 * age / 1_000_000;
            let error = disp - drift;
            let jitter = if server.pps_has_sample {
                server.pps_jitter_ps as int
            } else {
                0
            };
            &&& jitter < 99_500_000 ==> error == 100
            &&& jitter >= 99_500_000 ==> 1_000_000 * error - 500_000 <= jitter < 1_000_000 * error
                + 500_000
            &&& server.stratum_at(true, now_us) == 1
            &&& server.state_at(true, now_us) == DisciplineState::Locked
        }),
{
}

/// Without a fix or a pulse within the last ten seconds, the dispersion is a millisecond
/// and half a millisecond for each whole second past the ten, two seconds at most. The
/// server is in holdover below a second of dispersion, and unsynchronised from there on
/// and whenever there is no anchor.
pub proof fn law_dispersion_in_holdover(server: NtpServer, gps_fix: bool, age_us: i64, now_us: i64)
    requires
        server.wf(),
        server.pps_age_us(now_us) == age_us,
        server.clock_anchor is Some,
        !gps_fix || age_us >= 10_000_000,
    ensures
        ({
            let over = if age_us > 10_000_000 {
                (age_us - 10_000_000) / 1_000_000
            } else {
                0
            };
            let grown = 1_000 + 500 * over;
            let disp = server.dispersion_us(gps_fix, now_us);
            &&& grown <= 2_000_000 ==> disp == grown
            &&& grown > 2_000_000 ==> disp == 2_000_000
            &&& grown < 1_000_000 ==> server.stratum_at(gps_fix, now_us) == 1 && server.state_at(
                gps_fix,
                now_us,
            ) == DisciplineState::Holdover
            &&& grown >= 1_000_000 ==> server.stratum_at(gps_fix, now_us) == 16 && server.state_at(
                gps_fix,
                now_us,
            ) == DisciplineState::Unsync
        }),
{
}

/// The age of the last pulse is the time since its edge, and as large as can be while
/// there was none.
pub proof fn law_age_of_the_pulse(server: NtpServer, now_us: i64)
    ensures
        server.last_pps_monotonic_us is None ==> server.pps_age_us(now_us) == i64::MAX,
        server.last_pps_monotonic_us matches Some(edge_us) ==> (i64::MIN <= now_us - edge_us
            <= i64::MAX ==> server.pps_age_us(now_us) == now_us - edge_us),
{
}

/// What a response says follows from the state: the dispersion in microseconds and in
/// sixteenths of binary places of a second, the announced leap second while the stratum
/// is 1 and an alarm otherwise, the timestamp of the last pulse and the current one.
pub proof fn law_parameters_follow_the_state(server: NtpServer, gps_fix: bool, now: ClockReading)
    requires
        server.wf(),
        0 <= server.dispersion_us(gps_fix, now.monotonic_us) <= 2_000_000,
    ensures
        ({
            let dp = server.params_at(gps_fix, now);
            let disp = server.dispersion_us(gps_fix, now.monotonic_us);
            &&& dp.root_disp_us == disp
            &&& 1_000_000 * dp.root_disp_short <= 0x1_0000 * disp < 1_000_000 * (dp.root_disp_short
                + 1)
            &&& dp.stratum == server.stratum_at(gps_fix, now.monotonic_us)
            &&& dp.leap == if dp.stratum == 1 {
                server.pending_leap
            } else {
                3
            }
            &&& dp.ref_ts == server.last_sync_ntp_ts
            &&& dp.current_ts == server.timestamp_at(now)
        }),
{
}

/// The stated precision is the largest power of two, in seconds, that the error reaches.
/// While locked the error is the largest of half a millisecond, the smoothed error of
/// the pulses and the smoothed time that an answer takes, otherwise it is the dispersion.
pub proof fn law_precision_states_the_error(server: NtpServer, gps_fix: bool, now: ClockReading)
    requires
        server.wf(),
        0 <= server.dispersion_us(gps_fix, now.monotonic_us) <= 2_000_000,
    ensures
        ({
            let p = server.params_at(gps_fix, now).precision as int;
            let locked = gps_fix && server.clock_anchor is Some && server.pps_age_us(
                now.monotonic_us,
            ) < 10_000_000;
            let jitter = if server.pps_has_sample {
                server.pps_jitter_ps as int
            } else {
                0
            };
            let delay = if server.proc_delay_has_sample {
                server.proc_delay_ps as int
            } else {
                0
            };
            let disp = 1_000_000 * server.dispersion_us(gps_fix, now.monotonic_us);
            let reached = 1_000_000_000_000 * vstd::arithmetic::power2::pow2((p + 20) as nat);
            let next = 1_000_000_000_000 * vstd::arithmetic::power2::pow2((p + 21) as nat);
            &&& -20 <= p <= -4
            &&& p > -20 && locked ==> 0x10_0000 * 500_000_000 >= reached || 0x10_0000 * jitter
                >= reached || 0x10_0000 * delay >= reached
            &&& p < -4 && locked ==> 0x10_0000 * 500_000_000 < next && 0x10_0000 * jitter < next
                && 0x10_0000 * delay < next
            &&& p > -20 && !locked ==> 0x10_0000 * disp >= reached
            &&& p < -4 && !locked ==> 0x10_0000 * disp < next
        }),
{
    let ps = server.uncertainty_ps(gps_fix, now.monotonic_us);
    law_precision_is_logarithm(ps);
    assert(-20 <= super::precision_of(ps) <= -4);
}

/// A packet gets a proper answer exactly if it is a control message of at least twelve
/// bytes or any other packet of at least 48, the access list lets its source through, and
/// its source is not in the table of the limiter or was last accepted two seconds ago.
/// Sources without an IPv4 address pass both.
pub proof fn law_who_is_answered(
    server: NtpServer,
    packet: Seq<u8>,
    source: Option<u32>,
    now_us: i64,
)
    requires
        server.wf(),
    ensures
        ({
            let complete = packet.len() >= 48 || packet.len() >= 12 && packet[0] as int % 8 == 6;
            let mode6 = packet.len() > 0 && packet[0] as int % 8 == 6;
            let table = server.rate_limiter@;
            let rested = |addr: u32|
                forall|i: int| #[trigger]
                    super::protection::holds(table, i, addr) ==> now_us - table[i]->0.last_us
                        >= 2_000_000;
            &&& NtpServer::is_request(packet) <==> packet.len() > 0 && complete
            &&& source is None ==> (server.is_answered(packet, source, now_us)
                <==> packet.len() > 0 && complete)
            &&& source matches Some(addr) ==> (server.is_answered(packet, source, now_us)
                <==> packet.len() > 0 && complete && server.acl.permits(addr) && rested(addr))
        }),
{
}

/// A request that is let through is recorded by the limiter, and one without an IPv4
/// address is not.
pub proof fn law_limiter_records_requests(
    server: NtpServer,
    source: Option<u32>,
    now_us: i64,
    after: NtpServer,
)
    requires
        server.limiter_step(source, now_us, after),
        server.passes_limiter(source, now_us),
    ensures
        source is None ==> after.rate_limiter == server.rate_limiter,
        source matches Some(addr) ==> exists|i: int| #[trigger]
            super::protection::holds(after.rate_limiter@, i, addr)
                && after.rate_limiter@[i]->0.last_us == now_us,
{
    if let Some(addr) = source {
        super::protection::law_served_is_recorded(
            server.rate_limiter@,
            addr,
            now_us,
            after.rate_limiter@,
        );
    }
}

/// A moving average lies four fifths of the way from the sample to the old value, to the
/// nearest unit.
pub proof fn law_average(old_value: int, sample: int)
    ensures
        -2 <= 5 * super::smoothed(old_value, sample) - (4 * old_value + sample) <= 2,
{
}

/// The larger and the smaller of two numbers, and the bounds of the numbers that are kept.
pub proof fn law_bounds(a: int, b: int)
    ensures
        super::larger(a, b) >= a && super::larger(a, b) >= b,
        super::larger(a, b) == a || super::larger(a, b) == b,
        super::smaller(a, b) <= a && super::smaller(a, b) <= b,
        super::smaller(a, b) == a || super::smaller(a, b) == b,
        i64::MIN <= a <= i64::MAX ==> super::clock::sat_i64(a) == a,
        a > i64::MAX ==> super::clock::sat_i64(a) == i64::MAX,
        a < i64::MIN ==> super::clock::sat_i64(a) == i64::MIN,
{
}

/// What control messages and the display are told is what the server has measured.
pub proof fn law_measurements_are_passed_on(server: NtpServer, gps_fix: bool, now: ClockReading)
    ensures
        ({
            let m = server.metrics();
            let dp = server.params_at(gps_fix, now);
            let shot = server.snapshot_at(gps_fix, now);
            &&& m.pps_offset_us == server.pps_offset_us
            &&& m.pps_jitter_ps == server.pps_jitter_ps
            &&& m.proc_delay_ps == server.proc_delay_ps
            &&& m.freq_ppb == server.freq_ppb
            &&& shot.stratum == dp.stratum
            &&& shot.leap_indicator == dp.leap
            &&& shot.root_disp_us == dp.root_disp_us
            &&& shot.state == server.state_at(gps_fix, now.monotonic_us)
            &&& shot.freq_ppb == server.freq_ppb
            &&& shot.pps_offset_us == server.pps_offset_us
            &&& shot.pps_jitter_ps == server.pps_jitter_ps
            &&& shot.served == server.served
            &&& shot.rate_limited == server.rate_limited_total
            &&& shot.acl_blocked == server.acl_blocked_total
            &&& shot.pps_glitch_count == server.pps_glitch_count
            &&& shot.proc_delay_has_sample == server.proc_delay_has_sample
            &&& server.proc_delay_has_sample ==> shot.proc_delay_ps == server.proc_delay_ps
            &&& !server.proc_delay_has_sample ==> shot.proc_delay_ps == 0
        }),
{
}

/// Before anything is known, the server counts as unsynchronised and has measured
/// nothing.
pub proof fn law_nothing_is_known_at_first()
    ensures
        ({
            let shot = super::NtpSnapshot::initial();
            &&& shot.stratum == 16
            &&& shot.leap_indicator == 0
            &&& shot.state == DisciplineState::Unsync
            &&& shot.root_disp_us == 5_000_000
            &&& shot.freq_ppb == 0 && shot.pps_offset_us == 0 && shot.pps_jitter_ps == 0
            &&& shot.served == 0 && shot.rate_limited == 0 && shot.acl_blocked == 0
            &&& shot.pps_glitch_count == 0
            &&& !shot.proc_delay_has_sample
        }),
{
}

/// A fresh server has answered nobody, turned nobody away, measured nothing, corrects
/// nothing and remembers no client.
pub proof fn law_fresh_server(server: NtpServer, addr: u32)
    requires
        server.is_untouched(),
    ensures
        server.served == 0 && server.rate_limited_total == 0 && server.acl_blocked_total == 0,
        server.pps_offset_us == 0 && server.pps_jitter_ps == 0 && server.freq_ppb == 0,
        server.proc_delay_ps == 0 && server.last_sync_ntp_ts == 0,
        server.pending_leap == 0 && server.pps_glitch_count == 0,
        !server.pps_locked && !server.pps_has_sample && !server.proc_delay_has_sample,
        server.last_pps_monotonic_us is None,
        !super::protection::tracked_addr(server.rate_limiter@, addr),
{
}

} // verus!
