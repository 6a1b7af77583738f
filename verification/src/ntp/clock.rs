//! Clock readings and NTP timestamps.
//!
//! An NTP timestamp holds the seconds since 1900 modulo 2^32 in its upper half
//! and the fraction of a second, in units of 2^-32, in its lower half.

use vstd::prelude::*;

verus! {

/// Seconds from the NTP epoch, 1900-01-01, to the Unix epoch, 1970-01-01.
pub const NTP_UNIX_EPOCH_OFFSET_SECS: u64 = 2_208_988_800;

/// Units of the fraction of an NTP timestamp in one second.
pub const NTP_FRAC_SCALE: u64 = 0x1_0000_0000;

/// Microseconds in one second.
pub const MICROS_PER_SEC: i64 = 1_000_000;

/// One, in parts per billion.
pub const PARTS_PER_BILLION: i64 = 1_000_000_000;

/// Nanoseconds in one second.
pub const NANOS_PER_SEC: u64 = 1_000_000_000;

/// The value of `x` brought into the range of `i64`.
pub open spec fn sat_i64(x: int) -> i64 {
    if x < i64::MIN {
        i64::MIN
    } else if x > i64::MAX {
        i64::MAX
    } else {
        x as i64
    }
}

/// The difference of two numbers, brought into the range of `i64`.
pub fn saturating_sub(a: i64, b: i64) -> (r: i64)
    ensures
        r == sat_i64(a - b),
{
    let d: i128 = a as i128 - b as i128;
    saturate(d)
}

/// The sum of two numbers, brought into the range of `i64`.
pub fn saturating_sum(a: i64, b: i64) -> (r: i64)
    ensures
        r == sat_i64(a + b),
{
    let d: i128 = a as i128 + b as i128;
    saturate(d)
}

/// Bring a number into the range of `i64`.
fn saturate(d: i128) -> (r: i64)
    ensures
        r == sat_i64(d as int),
{
    if d < i64::MIN as i128 {
        i64::MIN
    } else if d > i64::MAX as i128 {
        i64::MAX
    } else {
        d as i64
    }
}

/// Divide, rounding towards negative infinity.
pub fn floor_div(a: i64, b: i64) -> (r: i64)
    requires
        b > 0,
    ensures
        r == a as int / b as int,
{
    if a >= 0 {
        a / b
    } else {
        let below: i128 = -1 - a as i128;
        let q: i128 = below / (b as i128);
        proof {
            let (x, y) = (a as int, b as int);
            let k = -1 - x;
            vstd::arithmetic::div_mod::lemma_fundamental_div_mod(k, y);
            vstd::arithmetic::div_mod::lemma_div_pos_is_pos(k, y);
            vstd::arithmetic::div_mod::lemma_mod_bound(k, y);
            assert(x == (-1 - k / y) * y + (y - 1 - k % y)) by (nonlinear_arith)
                requires
                    x == -1 - k,
                    k == y * (k / y) + k % y,
            ;
            vstd::arithmetic::div_mod::lemma_fundamental_div_mod_converse(
                x,
                y,
                -1 - k / y,
                y - 1 - k % y,
            );
            assert(k / y <= k) by (nonlinear_arith)
                requires
                    k >= 0,
                    y >= 1,
                    k == y * (k / y) + k % y,
                    k % y >= 0,
                    k / y >= 0,
            ;
        }
        (-1 - q) as i64
    }
}

/// The instant that a second count belongs to on the monotonic clock.
#[derive(Clone, Copy, Debug, PartialEq, Eq, Structural)]
pub struct ClockAnchor {
    /// Unix seconds at the anchor instant.
    pub unix_seconds: i64,
    /// Monotonic microseconds at the anchor instant.
    pub monotonic_us: i64,
}

/// What the monotonic clock and the wall clock show at one instant.
#[derive(Clone, Copy, Debug, PartialEq, Eq, Structural)]
pub struct ClockReading {
    /// Microseconds on the monotonic clock.
    pub monotonic_us: i64,
    /// Seconds since the Unix epoch on the wall clock.
    pub unix_seconds: u64,
    /// Nanoseconds into the current second on the wall clock.
    pub unix_nanos: u32,
}

impl ClockReading {
    /// The nanoseconds make up less than a second.
    pub open spec fn wf(self) -> bool {
        self.unix_nanos < NANOS_PER_SEC
    }
}

/// Read the wall clock with `SystemTime::elapsed` on the Unix epoch.
///
/// Gives the seconds and nanoseconds since the epoch, or `None` when the clock
/// stands before it. The nanoseconds are those of `Duration::subsec_nanos`, which
/// make up less than a second. Nothing is said about which time it is.
#[verifier::external_body]
fn unix_elapsed() -> (r: Option<(u64, u32)>)
    ensures
        r matches Some((_, nanos)) ==> nanos < NANOS_PER_SEC,
{
    match std::time::UNIX_EPOCH.elapsed() {
        Ok(elapsed) => Some((elapsed.as_secs(), elapsed.subsec_nanos())),
        Err(_) => None,
    }
}

/// The reading for what the wall clock shows beside the monotonic clock: seconds and
/// nanoseconds since the Unix epoch. A wall clock that stands before the epoch reads
/// as the epoch.
pub open spec fn reading_at(elapsed: Option<(u64, u32)>, monotonic_us: i64) -> ClockReading {
    match elapsed {
        Some((unix_seconds, unix_nanos)) => ClockReading { monotonic_us, unix_seconds, unix_nanos },
        None => ClockReading { monotonic_us, unix_seconds: 0, unix_nanos: 0 },
    }
}

/// Put a reading together from what the two clocks show; `None` is a wall clock that
/// stands before the Unix epoch.
pub fn reading_from(elapsed: Option<(u64, u32)>, monotonic_us: i64) -> (r: ClockReading)
    ensures
        r == reading_at(elapsed, monotonic_us),
{
    match elapsed {
        Some((unix_seconds, unix_nanos)) => ClockReading { monotonic_us, unix_seconds, unix_nanos },
        None => ClockReading { monotonic_us, unix_seconds: 0, unix_nanos: 0 },
    }
}

/// Whether the wall clock was read and showed this: seconds and nanoseconds since the
/// Unix epoch, or nothing when it stands before it.
pub closed spec fn was_shown(elapsed: Option<(u64, u32)>) -> bool {
    call_ensures(unix_elapsed, (), elapsed)
}

/// Take a reading of the wall clock beside one of the monotonic clock.
///
/// A wall clock that stands before the Unix epoch reads as the epoch.
pub fn read_clock(monotonic_us: i64) -> (r: ClockReading)
    ensures
        r.wf(),
        r.monotonic_us == monotonic_us,
        exists|elapsed: Option<(u64, u32)>| #[trigger]
            was_shown(elapsed) && r == reading_at(elapsed, monotonic_us),
{
    let look = unix_elapsed;
    let elapsed = look();
    assert(was_shown(elapsed));
    reading_from(elapsed, monotonic_us)
}

/// The timestamp of `seconds` since the NTP epoch and a fraction of a second.
pub open spec fn timestamp(seconds: int, fraction: int) -> u64 {
    ((seconds % 0x1_0000_0000) * 0x1_0000_0000 + fraction) as u64
}

/// Put a timestamp together.
fn make_timestamp(seconds: u64, fraction: u64) -> (r: u64)
    requires
        fraction < NTP_FRAC_SCALE,
    ensures
        r == timestamp(seconds as int, fraction as int),
{
    (seconds % NTP_FRAC_SCALE) * NTP_FRAC_SCALE + fraction
}

/// The timestamp of a wall clock reading.
pub open spec fn wall_timestamp(reading: ClockReading) -> u64 {
    let seconds = reading.unix_seconds + NTP_UNIX_EPOCH_OFFSET_SECS;
    timestamp(
        if seconds > u64::MAX {
            u64::MAX as int
        } else {
            seconds
        },
        reading.unix_nanos * NTP_FRAC_SCALE / NANOS_PER_SEC as int,
    )
}

/// Convert a wall clock reading into a timestamp.
pub fn ntp_timestamp_from_wall(reading: ClockReading) -> (r: u64)
    requires
        reading.wf(),
    ensures
        r == wall_timestamp(reading),
{
    let seconds: u64 = reading.unix_seconds.saturating_add(NTP_UNIX_EPOCH_OFFSET_SECS);
    let fraction: u64 = reading.unix_nanos as u64 * NTP_FRAC_SCALE / NANOS_PER_SEC;
    make_timestamp(seconds, fraction)
}

/// The timestamp that the wall clock shows now.
pub fn ntp_timestamp_now() -> (r: u64)
    ensures
        exists|elapsed: Option<(u64, u32)>| #[trigger]
            was_shown(elapsed) && r == wall_timestamp(reading_at(elapsed, 0)),
{
    ntp_timestamp_from_wall(read_clock(0))
}

/// The timestamp of a wall clock reading of the first NTP era holds the seconds in its
/// upper half and the fraction, rounded down, in its lower half. It is never zero. A
/// wall clock before the Unix epoch gives the timestamp of the epoch.
pub proof fn law_wall_timestamp(seconds: u64, nanos: u32, monotonic_us: i64)
    requires
        nanos < NANOS_PER_SEC,
        seconds + NTP_UNIX_EPOCH_OFFSET_SECS < 0x1_0000_0000,
    ensures
        ({
            let stamp = wall_timestamp(reading_at(Some((seconds, nanos)), monotonic_us));
            &&& stamp as int / 0x1_0000_0000 == seconds + NTP_UNIX_EPOCH_OFFSET_SECS
            &&& stamp as int % 0x1_0000_0000 == nanos * 0x1_0000_0000 / 1_000_000_000
            &&& stamp != 0
        }),
        wall_timestamp(reading_at(None, monotonic_us)) == wall_timestamp(
            reading_at(Some((0, 0)), monotonic_us),
        ),
{
    let fraction = nanos * 0x1_0000_0000 / 1_000_000_000;
    assert(0 <= fraction < 0x1_0000_0000);
}

/// Monotonic time since the anchor, without the drift of the oscillator.
///
/// `freq_ppb` is what the oscillator is fast by, in parts per billion. The
/// result is a whole number of microseconds and not below zero.
pub open spec fn corrected_elapsed_us(anchor: ClockAnchor, freq_ppb: i32, now_us: i64) -> i64 {
    let scaled = sat_i64(now_us - anchor.monotonic_us) * (PARTS_PER_BILLION - freq_ppb);
    if scaled <= 0 {
        0
    } else {
        sat_i64(scaled / PARTS_PER_BILLION as int)
    }
}

/// Compute the corrected time since the anchor.
pub fn corrected_elapsed(anchor: ClockAnchor, freq_ppb: i32, now_us: i64) -> (r: i64)
    ensures
        r == corrected_elapsed_us(anchor, freq_ppb, now_us),
        r >= 0,
{
    let raw: i64 = saturating_sub(now_us, anchor.monotonic_us);
    let factor: i64 = PARTS_PER_BILLION - freq_ppb as i64;
    assert(-0x8000_0000_0000_0000_0000_0000 <= raw * factor <= 0x8000_0000_0000_0000_0000_0000)
        by (nonlinear_arith)
        requires
            -0x8000_0000_0000_0000 <= raw <= 0x7FFF_FFFF_FFFF_FFFF,
            -0x1_0000_0000 <= factor <= 0x1_0000_0000,
    ;
    let scaled: i128 = raw as i128 * factor as i128;
    if scaled <= 0 {
        0
    } else {
        saturate(scaled / (PARTS_PER_BILLION as i128))
    }
}

/// The Unix seconds that the anchored clock shows.
pub open spec fn anchored_unix_seconds(anchor: ClockAnchor, freq_ppb: i32, now_us: i64) -> i64 {
    sat_i64(
        anchor.unix_seconds + corrected_elapsed_us(anchor, freq_ppb, now_us)
            / MICROS_PER_SEC,
    )
}

/// The timestamp that the anchored clock shows. Times before the Unix epoch show
/// as the second of the epoch.
pub open spec fn anchored_timestamp(anchor: ClockAnchor, freq_ppb: i32, now_us: i64) -> u64 {
    let unix = anchored_unix_seconds(anchor, freq_ppb, now_us);
    let micros = corrected_elapsed_us(anchor, freq_ppb, now_us) as int % MICROS_PER_SEC as int;
    timestamp(
        if unix >= 0 {
            unix + NTP_UNIX_EPOCH_OFFSET_SECS
        } else {
            NTP_UNIX_EPOCH_OFFSET_SECS as int
        },
        micros * NTP_FRAC_SCALE / MICROS_PER_SEC as int,
    )
}

/// Read the Unix seconds off the anchored clock.
pub fn unix_seconds_at(anchor: ClockAnchor, freq_ppb: i32, now_us: i64) -> (r: i64)
    ensures
        r == anchored_unix_seconds(anchor, freq_ppb, now_us),
{
    let elapsed: i64 = corrected_elapsed(anchor, freq_ppb, now_us);
    saturating_sum(anchor.unix_seconds, elapsed / MICROS_PER_SEC)
}

/// Read a timestamp off the anchored clock.
pub fn ntp_timestamp_at(anchor: ClockAnchor, freq_ppb: i32, now_us: i64) -> (r: u64)
    ensures
        r == anchored_timestamp(anchor, freq_ppb, now_us),
{
    let unix: i64 = unix_seconds_at(anchor, freq_ppb, now_us);
    let elapsed: i64 = corrected_elapsed(anchor, freq_ppb, now_us);
    let micros: u64 = (elapsed % MICROS_PER_SEC) as u64;
    let seconds: u64 = if unix >= 0 {
        unix as u64 + NTP_UNIX_EPOCH_OFFSET_SECS
    } else {
        NTP_UNIX_EPOCH_OFFSET_SECS
    };
    make_timestamp(seconds, micros * NTP_FRAC_SCALE / (MICROS_PER_SEC as u64))
}

/// The anchored clock never runs backwards.
pub proof fn law_anchored_clock_is_monotonic(
    anchor: ClockAnchor,
    freq_ppb: i32,
    earlier_us: i64,
    later_us: i64,
)
    requires
        earlier_us <= later_us,
        freq_ppb <= PARTS_PER_BILLION,
    ensures
        corrected_elapsed_us(anchor, freq_ppb, earlier_us) <= corrected_elapsed_us(
            anchor,
            freq_ppb,
            later_us,
        ),
        anchored_unix_seconds(anchor, freq_ppb, earlier_us) <= anchored_unix_seconds(
            anchor,
            freq_ppb,
            later_us,
        ),
{
    let a = sat_i64(earlier_us - anchor.monotonic_us) as int;
    let b = sat_i64(later_us - anchor.monotonic_us) as int;
    let f = PARTS_PER_BILLION - freq_ppb;
    assert(a * f <= b * f) by (nonlinear_arith)
        requires
            a <= b,
            f >= 0,
    ;
    if a * f > 0 {
        vstd::arithmetic::div_mod::lemma_div_is_ordered(a * f, b * f, PARTS_PER_BILLION as int);
    } else if b * f > 0 {
        vstd::arithmetic::div_mod::lemma_div_pos_is_pos(b * f, PARTS_PER_BILLION as int);
    }
}

/// The timestamps of the anchored clock never run backwards within an NTP era: a
/// receive timestamp does not exceed a later transmit timestamp.
pub proof fn law_timestamps_are_ordered(
    anchor: ClockAnchor,
    freq_ppb: i32,
    earlier_us: i64,
    later_us: i64,
)
    requires
        earlier_us <= later_us,
        freq_ppb <= PARTS_PER_BILLION,
        anchor.unix_seconds >= 0,
        anchored_unix_seconds(anchor, freq_ppb, later_us) + NTP_UNIX_EPOCH_OFFSET_SECS
            < NTP_FRAC_SCALE,
    ensures
        anchored_timestamp(anchor, freq_ppb, earlier_us) <= anchored_timestamp(
            anchor,
            freq_ppb,
            later_us,
        ),
{
    law_anchored_clock_is_monotonic(anchor, freq_ppb, earlier_us, later_us);
    let a = corrected_elapsed_us(anchor, freq_ppb, earlier_us) as int;
    let b = corrected_elapsed_us(anchor, freq_ppb, later_us) as int;
    let one = MICROS_PER_SEC as int;
    assert(a / one <= b / one);
    assert(a / one == b / one ==> a % one <= b % one);
}

/// An oscillator that is neither fast nor slow needs no correction.
pub proof fn law_no_drift_no_correction(anchor: ClockAnchor, now_us: i64)
    requires
        anchor.monotonic_us <= now_us,
        now_us - anchor.monotonic_us <= i64::MAX,
    ensures
        corrected_elapsed_us(anchor, 0, now_us) == now_us - anchor.monotonic_us,
{
    let d = now_us - anchor.monotonic_us;
    assert((d * PARTS_PER_BILLION) / PARTS_PER_BILLION as int == d);
}

/// At the anchor instant the clock shows the anchor's second exactly.
pub proof fn law_anchor_instant(anchor: ClockAnchor, freq_ppb: i32)
    requires
        anchor.unix_seconds >= 0,
    ensures
        anchored_timestamp(anchor, freq_ppb, anchor.monotonic_us) == timestamp(
            anchor.unix_seconds + NTP_UNIX_EPOCH_OFFSET_SECS,
            0,
        ),
{
    let f = PARTS_PER_BILLION - freq_ppb;
    assert(0 * f == 0) by (nonlinear_arith);
}

/// An oscillator that is fast shows less time than the monotonic clock, one that
/// is slow shows more.
pub proof fn law_correction_follows_drift(anchor: ClockAnchor, freq_ppb: i32, now_us: i64)
    requires
        -PARTS_PER_BILLION <= freq_ppb <= PARTS_PER_BILLION,
        anchor.monotonic_us <= now_us,
        now_us - anchor.monotonic_us <= i64::MAX,
    ensures
        freq_ppb >= 0 ==> corrected_elapsed_us(anchor, freq_ppb, now_us) <= now_us
            - anchor.monotonic_us,
        freq_ppb <= 0 ==> corrected_elapsed_us(anchor, freq_ppb, now_us) >= now_us
            - anchor.monotonic_us,
{
    let d = now_us - anchor.monotonic_us;
    let f = PARTS_PER_BILLION - freq_ppb;
    let one = PARTS_PER_BILLION as int;
    assert((d * one) / one == d);
    if freq_ppb >= 0 {
        assert(d * f <= d * one && d * f >= 0) by (nonlinear_arith)
            requires
                d >= 0,
                0 <= f <= one,
        ;
        vstd::arithmetic::div_mod::lemma_div_is_ordered(d * f, d * one, one);
    }
    if freq_ppb <= 0 {
        assert(d * f >= d * one) by (nonlinear_arith)
            requires
                d >= 0,
                f >= one,
        ;
        assert(d == 0 ==> d * f == 0) by (nonlinear_arith);
        vstd::arithmetic::div_mod::lemma_div_is_ordered(d * one, d * f, one);
    }
}

/// The corrected time is the monotonic time less the share by which the oscillator is
/// fast, rounded down to a microsecond. It is zero up to the anchor instant.
pub proof fn law_corrected_time(anchor: ClockAnchor, freq_ppb: i32, now_us: i64)
    requires
        -1_000_000_000 <= freq_ppb <= 1_000_000_000,
        now_us - anchor.monotonic_us < 0x4000_0000_0000_0000,
    ensures
        ({
            let passed = now_us - anchor.monotonic_us;
            let shown = corrected_elapsed_us(anchor, freq_ppb, now_us);
            &&& passed <= 0 ==> shown == 0
            &&& passed >= 0 ==> 1_000_000_000 * shown <= passed * (1_000_000_000 - freq_ppb)
                < 1_000_000_000 * (shown + 1)
        }),
{
    let passed = now_us - anchor.monotonic_us;
    let factor = 1_000_000_000 - freq_ppb;
    let scaled = passed * factor;
    let limited = sat_i64(passed) as int;
    if passed <= 0 {
        assert(limited * factor <= 0) by (nonlinear_arith)
            requires
                limited <= 0,
                factor >= 0,
        ;
    }
    if passed >= 0 {
        assert(limited == passed);
        assert(0 <= scaled <= 0x3FFF_FFFF_FFFF_FFFF * 2_000_000_000) by (nonlinear_arith)
            requires
                scaled == passed * factor,
                0 <= passed <= 0x3FFF_FFFF_FFFF_FFFF,
                0 <= factor <= 2_000_000_000,
        ;
    }
}

/// The timestamp is the anchor's second and the corrected time since the anchor, with
/// the seconds counted from 1900 in its upper half and the part of a second that is
/// left, to within one unit, in its lower half.
pub proof fn law_timestamp_is_elapsed_time(anchor: ClockAnchor, freq_ppb: i32, now_us: i64)
    requires
        anchor.unix_seconds >= 0,
        anchor.unix_seconds + corrected_elapsed_us(anchor, freq_ppb, now_us) as int / 1_000_000
            + 2_208_988_800 < 0x1_0000_0000,
    ensures
        ({
            let shown = corrected_elapsed_us(anchor, freq_ppb, now_us) as int;
            let stamp = anchored_timestamp(anchor, freq_ppb, now_us) as int;
            let fraction = stamp % 0x1_0000_0000;
            &&& stamp / 0x1_0000_0000 == anchor.unix_seconds + shown / 1_000_000 + 2_208_988_800
            &&& fraction * 1_000_000 <= (shown % 1_000_000) * 0x1_0000_0000 < (fraction + 1)
                * 1_000_000
            &&& anchored_unix_seconds(anchor, freq_ppb, now_us) == anchor.unix_seconds + shown
                / 1_000_000
        }),
{
    let shown = corrected_elapsed_us(anchor, freq_ppb, now_us) as int;
    let micros = shown % 1_000_000;
    assert(0 <= micros * 0x1_0000_0000 / 1_000_000 < 0x1_0000_0000);
}

/// Timestamps of later eras start again at zero: only the seconds above 2^32 are lost.
pub proof fn law_eras_wrap_around(seconds: int, fraction: int)
    requires
        0 <= seconds,
        0 <= fraction < 0x1_0000_0000,
    ensures
        timestamp(seconds, fraction) as int / 0x1_0000_0000 == seconds % 0x1_0000_0000,
        timestamp(seconds, fraction) as int % 0x1_0000_0000 == fraction,
{
}

} // verus!
