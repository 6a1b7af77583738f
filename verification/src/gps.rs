//! GPS sentences and what is known from them.
//!
//! RMC sentences give date, time, position and fix, GGA sentences the number of
//! satellites and the altitude. Positions and altitudes are single-precision
//! numbers; here they are carried as their bits.

use crate::calendar::{self, CivilTime};
use crate::text;
use vstd::prelude::*;
use vstd::slice::slice_subrange;
use vstd::utf8::{decode_utf8, encode_utf8, valid_utf8};

verus! {

/// Pin on which the receiver sends.
pub const UART_TX_PIN: i32 = 1;

/// Pin on which the receiver is sent to.
pub const UART_RX_PIN: i32 = 2;

/// What is known from the sentences so far.
#[derive(Debug, Clone)]
pub struct GpsSnapshot {
    /// Local date.
    pub local_date: String,
    /// Local time of day.
    pub local_time: String,
    /// Whole hours by which local time is ahead of UTC.
    pub tz_offset_hours: i8,
    /// UTC of the last RMC sentence, if its date and time exist.
    pub utc_unix_seconds: Option<i64>,
    /// Bits of the latitude in degrees, south below zero.
    pub lat_bits: u32,
    /// Bits of the longitude in degrees, west below zero.
    pub lon_bits: u32,
    /// Whether the last RMC sentence reported a fix.
    pub fix: bool,
    /// Number of satellites in the last GGA sentence.
    pub sats: u8,
    /// Bits of the altitude in metres in the last GGA sentence.
    pub altitude_bits: Option<u32>,
}

impl Default for GpsSnapshot {
    fn default() -> (r: Self)
        ensures
            r.local_date@ == Seq::<char>::empty(),
            r.local_time@ == Seq::<char>::empty(),
            r.tz_offset_hours == 0,
            r.utc_unix_seconds is None,
            r.lat_bits == 0,
            r.lon_bits == 0,
            !r.fix,
            r.sats == 0,
            r.altitude_bits is None,
    {
        GpsSnapshot {
            local_date: String::new(),
            local_time: String::new(),
            tz_offset_hours: 0,
            utc_unix_seconds: None,
            lat_bits: 0,
            lon_bits: 0,
            fix: false,
            sats: 0,
            altitude_bits: None,
        }
    }
}

/// The exclusive or of all bytes.
pub open spec fn xor_all(bytes: Seq<u8>) -> u8
    decreases bytes.len(),
{
    if bytes.len() == 0 {
        0
    } else {
        xor_all(bytes.drop_last()) ^ bytes.last()
    }
}

/// The number that a hexadecimal digit stands for.
pub open spec fn hex_digit(b: u8) -> Option<int> {
    if 0x30 <= b <= 0x39 {
        Some(b - 0x30)
    } else if 0x41 <= b <= 0x46 {
        Some(b - 0x37)
    } else if 0x61 <= b <= 0x66 {
        Some(b - 0x57)
    } else {
        None
    }
}

/// The number that two hexadecimal digits stand for.
pub open spec fn hex_pair(a: u8, b: u8) -> Option<int> {
    match (hex_digit(a), hex_digit(b)) {
        (Some(high), Some(low)) => Some(high * 16 + low),
        _ => None,
    }
}

/// Read a hexadecimal digit.
fn read_hex_digit(b: u8) -> (r: Option<u8>)
    ensures
        r is Some <==> hex_digit(b) is Some,
        r matches Some(v) ==> hex_digit(b) == Some(v as int) && v < 16,
{
    if 0x30 <= b && b <= 0x39 {
        Some(b - 0x30)
    } else if 0x41 <= b && b <= 0x46 {
        Some(b - 0x37)
    } else if 0x61 <= b && b <= 0x66 {
        Some(b - 0x57)
    } else {
        None
    }
}

/// Read two hexadecimal digits.
fn read_hex_pair(a: u8, b: u8) -> (r: Option<u8>)
    ensures
        r is Some <==> hex_pair(a, b) is Some,
        r matches Some(v) ==> hex_pair(a, b) == Some(v as int),
{
    match (read_hex_digit(a), read_hex_digit(b)) {
        (Some(high), Some(low)) => Some(high * 16 + low),
        _ => None,
    }
}

/// Position of the last `*`, or -1 if there is none.
pub open spec fn last_star(bytes: Seq<u8>) -> int
    decreases bytes.len(),
{
    if bytes.len() == 0 {
        -1
    } else if bytes.last() == 0x2A {
        bytes.len() - 1
    } else {
        last_star(bytes.drop_last())
    }
}

/// Whether the bytes of a sentence start with `$` and end, as far as anything
/// matters, with `*` and the checksum of what stands between the two.
pub open spec fn checksum_valid(bytes: Seq<u8>) -> bool {
    let star = last_star(bytes);
    &&& bytes.len() > 0
    &&& bytes[0] == 0x24
    &&& star >= 0
    &&& star + 3 <= bytes.len()
    &&& hex_pair(bytes[star + 1], bytes[star + 2]) == Some(
        xor_all(bytes.subrange(1, star)) as int,
    )
}

/// Check the checksum of a sentence.
pub fn nmea_checksum_valid(sentence: &str) -> (r: bool)
    ensures
        r == checksum_valid(encode_utf8(sentence@)),
{
    let bytes = sentence.as_bytes();
    let n: usize = bytes.len();
    if n == 0 || bytes[0] != 0x24 {
        return false;
    }
    let mut end: usize = n;
    assert(bytes@.take(n as int) == bytes@);
    while end > 0 && bytes[end - 1] != 0x2A
        invariant
            n == bytes@.len(),
            end <= n,
            last_star(bytes@) == last_star(bytes@.take(end as int)),
        decreases end,
    {
        assert(bytes@.take(end as int).last() == bytes@[end - 1]);
        assert(bytes@.take(end as int).drop_last() == bytes@.take(end - 1));
        end = end - 1;
    }
    if end == 0 {
        return false;
    }
    assert(bytes@.take(end as int).last() == bytes@[end - 1]);
    let star: usize = end - 1;
    if n - star < 3 {
        return false;
    }
    match read_hex_pair(bytes[star + 1], bytes[star + 2]) {
        None => false,
        Some(expected) => {
            let mut computed: u8 = 0;
            let mut i: usize = 1;
            while i < star
                invariant
                    n == bytes@.len(),
                    1 <= i <= star < n,
                    computed == xor_all(bytes@.subrange(1, i as int)),
                decreases star - i,
            {
                computed = computed ^ bytes[i];
                assert(bytes@.subrange(1, i + 1).drop_last() == bytes@.subrange(1, i as int));
                i = i + 1;
            }
            computed == expected
        },
    }
}

/// Whether every character is an ASCII character.
pub open spec fn all_ascii(s: Seq<char>) -> bool {
    forall|i: int| 0 <= i < s.len() ==> #[trigger] s[i] <= '\u{7f}'
}

/// The first six characters of a field that has as many and is all ASCII.
pub open spec fn six_chars(raw: Seq<char>) -> Option<Seq<char>> {
    if raw.len() >= 6 && all_ascii(raw) {
        Some(raw.take(6))
    } else {
        None
    }
}

/// Take the first six characters of a date or time field.
fn take_six(raw: &[char]) -> (r: Option<Vec<char>>)
    ensures
        r is Some <==> six_chars(raw@) is Some,
        r matches Some(six) ==> six_chars(raw@) == Some(six@) && six@.len() == 6,
{
    let n: usize = raw.len();
    if n < 6 {
        return None;
    }
    let mut six: Vec<char> = Vec::new();
    let mut i: usize = 0;
    while i < n
        invariant
            n == raw@.len(),
            n >= 6,
            i <= n,
            forall|j: int| 0 <= j < i ==> #[trigger] raw@[j] <= '\u{7f}',
            six@ == raw@.take(if i < 6 {
                i as int
            } else {
                6
            }),
        decreases n - i,
    {
        let c: char = raw[i];
        if c > '\u{7f}' {
            assert(!all_ascii(raw@));
            return None;
        }
        if i < 6 {
            six.push(c);
        }
        i = i + 1;
        assert(six@ == raw@.take(if i < 6 {
            i as int
        } else {
            6
        }));
    }
    assert(all_ascii(raw@));
    Some(six)
}

/// What an RMC sentence says, as text.
pub struct RmcFields {
    /// Time of day, `hhmmss`.
    pub time: Vec<char>,
    /// Date, `ddmmyy`.
    pub date: Vec<char>,
    /// Whether the status is `A`.
    pub active: bool,
    /// Latitude and its hemisphere.
    pub lat: (String, String),
    /// Longitude and its hemisphere.
    pub lon: (String, String),
}

/// Whether a sentence is a complete RMC sentence: its checksum is right, it has ten
/// fields, and time and date have six characters.
pub open spec fn is_rmc(sentence: Seq<char>) -> bool {
    let f = text::fields(sentence, ',');
    &&& checksum_valid(encode_utf8(sentence))
    &&& f.len() >= 10
    &&& six_chars(f[1]) is Some
    &&& six_chars(f[9]) is Some
}

/// The time field of an RMC sentence.
pub open spec fn rmc_time(sentence: Seq<char>) -> Seq<char> {
    text::fields(sentence, ',')[1].take(6)
}

/// The date field of an RMC sentence.
pub open spec fn rmc_date(sentence: Seq<char>) -> Seq<char> {
    text::fields(sentence, ',')[9].take(6)
}

/// Whether an RMC sentence reports a fix.
pub open spec fn rmc_active(sentence: Seq<char>) -> bool {
    text::fields(sentence, ',')[2] == "A"@
}

/// Take an RMC sentence apart.
pub fn rmc_fields(sentence: &str) -> (r: Option<RmcFields>)
    ensures
        r is Some <==> is_rmc(sentence@),
        r matches Some(rmc) ==> {
            let f = text::fields(sentence@, ',');
            &&& rmc.time@ == rmc_time(sentence@)
            &&& rmc.time@.len() == 6
            &&& rmc.date@ == rmc_date(sentence@)
            &&& rmc.date@.len() == 6
            &&& rmc.active == rmc_active(sentence@)
            &&& rmc.lat.0@ == f[3]
            &&& rmc.lat.1@ == f[4]
            &&& rmc.lon.0@ == f[5]
            &&& rmc.lon.1@ == f[6]
        },
{
    if !nmea_checksum_valid(sentence) {
        return None;
    }
    let chars = text::chars_of(sentence);
    let fields = text::split(chars.as_slice(), ',');
    if fields.len() < 10 {
        return None;
    }
    proof {
        reveal_strlit("A");
    }
    match (take_six(fields[1].as_slice()), take_six(fields[9].as_slice())) {
        (Some(time), Some(date)) => {
            let active: bool = fields[2].len() == 1 && fields[2][0] == 'A';
            assert(active == (fields@[2]@ == "A"@)) by {
                if active {
                    assert(fields@[2]@ =~= "A"@);
                }
            }
            Some(
                RmcFields {
                    time,
                    date,
                    active,
                    lat: (
                        text::string_of(fields[3].as_slice()),
                        text::string_of(fields[4].as_slice()),
                    ),
                    lon: (
                        text::string_of(fields[5].as_slice()),
                        text::string_of(fields[6].as_slice()),
                    ),
                },
            )
        },
        _ => None,
    }
}

/// A position as single-precision numbers, and the whole hours from UTC that its
/// longitude stands for.
#[derive(Debug, Clone, Copy)]
pub struct RmcPosition {
    /// Bits of the latitude in degrees, south below zero.
    pub lat_bits: u32,
    /// Bits of the longitude in degrees, west below zero.
    pub lon_bits: u32,
    /// A fifteenth of the longitude, rounded.
    pub lon_hours: i8,
}

/// The date and time that `ddmmyy` and `hhmmss` stand for, if each pair of
/// characters is a number.
pub open spec fn utc_civil(date: Seq<char>, time: Seq<char>) -> Option<CivilTime> {
    match (
        text::unsigned_number(date.subrange(0, 2), 99),
        text::unsigned_number(date.subrange(2, 4), 99),
        text::signed_number(date.subrange(4, 6), -99, 99),
        text::unsigned_number(time.subrange(0, 2), 99),
        text::unsigned_number(time.subrange(2, 4), 99),
        text::unsigned_number(time.subrange(4, 6), 99),
    ) {
        (Some(day), Some(month), Some(year), Some(hour), Some(minute), Some(second)) => Some(
            CivilTime {
                year: (2000 + year) as i32,
                month: month as u32,
                day: day as u32,
                hour: hour as u32,
                minute: minute as u32,
                second: second as u32,
            },
        ),
        _ => None,
    }
}

/// The Unix seconds that `ddmmyy` and `hhmmss` stand for, if there is such a date
/// and time.
pub open spec fn utc_unix(date: Seq<char>, time: Seq<char>) -> Option<int> {
    match utc_civil(date, time) {
        Some(t) => if t.is_valid() {
            Some(t.unix())
        } else {
            None
        },
        None => None,
    }
}

/// Get the Unix seconds that `ddmmyy` and `hhmmss` stand for.
pub fn utc_from_fields(date: &[char], time: &[char]) -> (r: Option<i64>)
    requires
        date@.len() == 6,
        time@.len() == 6,
    ensures
        r is Some <==> utc_unix(date@, time@) is Some,
        r matches Some(unix) ==> utc_unix(date@, time@) == Some(unix as int)
            && -15_000_000_000 < unix < 15_000_000_000,
{
    match (
        text::read_unsigned(slice_subrange(date, 0, 2), 99),
        text::read_unsigned(slice_subrange(date, 2, 4), 99),
        text::read_signed(slice_subrange(date, 4, 6), 99),
        text::read_unsigned(slice_subrange(time, 0, 2), 99),
        text::read_unsigned(slice_subrange(time, 2, 4), 99),
        text::read_unsigned(slice_subrange(time, 4, 6), 99),
    ) {
        (Some(day), Some(month), Some(year), Some(hour), Some(minute), Some(second)) => {
            let t = CivilTime {
                year: 2000 + year as i32,
                month: month as u32,
                day: day as u32,
                hour: hour as u32,
                minute: minute as u32,
                second: second as u32,
            };
            proof {
                if t.is_valid() {
                    calendar::lemma_recent_dates(t);
                }
            }
            calendar::unix_from_civil(t)
        },
        _ => None,
    }
}

/// Which time zone is in use: the one set at run time, or else the default one.
pub struct ZoneSettings {
    /// Name set at run time.
    pub runtime: Option<String>,
    /// Name of the default.
    pub fallback: Option<String>,
}

impl ZoneSettings {
    /// The name of the time zone in use, if there is one. Names that are not known
    /// do not count.
    pub open spec fn active(&self) -> Option<Seq<char>> {
        match self.runtime {
            Some(name) if calendar::zone_is_known(name@) => Some(name@),
            _ => match self.fallback {
                Some(name) if calendar::zone_is_known(name@) => Some(name@),
                _ => None,
            },
        }
    }

    /// No time zone set at run time, and a default that may be missing.
    pub fn new(fallback: Option<String>) -> (r: Self)
        ensures
            r.runtime is None,
            r.fallback == fallback,
    {
        ZoneSettings { runtime: None, fallback }
    }

    /// Find the time zone in use.
    fn find_active(&self) -> (r: Option<&str>)
        ensures
            r is Some <==> self.active() is Some,
            r matches Some(name) ==> self.active() == Some(name@),
    {
        if let Some(name) = &self.runtime {
            if calendar::zone_known(name.as_str()) {
                return Some(name.as_str());
            }
        }
        match &self.fallback {
            Some(name) => if calendar::zone_known(name.as_str()) {
                Some(name.as_str())
            } else {
                None
            },
            None => None,
        }
    }
}

/// Set the time zone by its name. A name that is not known changes nothing.
pub fn set_runtime_timezone(zones: &mut ZoneSettings, tz_name: &str) -> (set: bool)
    ensures
        set == calendar::zone_is_known(tz_name@),
        final(zones).fallback == old(zones).fallback,
        set ==> final(zones).runtime is Some && final(zones).runtime->0@ == tz_name@,
        !set ==> final(zones).runtime == old(zones).runtime,
{
    if calendar::zone_known(tz_name) {
        zones.runtime = Some(tz_name.to_owned());
        true
    } else {
        false
    }
}

/// A quotient rounded towards zero.
pub open spec fn toward_zero(n: int, d: int) -> int {
    if n >= 0 {
        n / d
    } else {
        -((-n) / d)
    }
}

/// Whole hours in a number of seconds, rounded towards zero.
pub open spec fn whole_hours(seconds: int) -> int {
    toward_zero(seconds, 3600)
}

/// Take the whole hours out of an offset from UTC.
pub fn offset_hours(seconds: i32) -> (r: i8)
    requires
        calendar::under_a_day(seconds as int),
    ensures
        r == whole_hours(seconds as int),
{
    if seconds >= 0 {
        (seconds / 3600) as i8
    } else {
        (-((-seconds) / 3600)) as i8
    }
}

/// The local date at an offset from UTC.
pub open spec fn local_date_text(unix: int, offset: int) -> Seq<char> {
    let local = calendar::civil_at(unix + offset);
    calendar::date_text(
        calendar::signed_year_text(local.year as int),
        local.month as int,
        local.day as int,
    )
}

/// The local time of day at an offset from UTC.
pub open spec fn local_time_text(unix: int, offset: int) -> Seq<char> {
    let local = calendar::civil_at(unix + offset);
    calendar::time_text(local.hour as int, local.minute as int, local.second as int)
}

/// Write local date and time at an offset from UTC.
pub fn local_at_offset(unix: i64, offset_seconds: i32) -> (r: (String, String))
    requires
        calendar::in_calendar(unix + offset_seconds),
    ensures
        r.0@ == local_date_text(unix as int, offset_seconds as int),
        r.1@ == local_time_text(unix as int, offset_seconds as int),
{
    proof {
        calendar::lemma_calendar_fits();
    }
    match calendar::civil_from_unix(unix + offset_seconds as i64) {
        Some(t) => (
            calendar::write_date(calendar::write_signed_year(t.year), t.month, t.day),
            calendar::write_time(t.hour, t.minute, t.second),
        ),
        None => (String::new(), String::new()),
    }
}

/// Whole hours by which the time zone in use is ahead of UTC; 0 if there is none or
/// the instant lies outside the calendar.
pub fn tz_offset_hours_at_unix(zones: &ZoneSettings, utc_unix_seconds: i64) -> (r: i8)
    ensures
        r == match zones.active() {
            Some(name) if calendar::in_calendar(utc_unix_seconds as int) => whole_hours(
                calendar::zone_offset(name, utc_unix_seconds as int),
            ),
            _ => 0,
        },
{
    match zones.find_active() {
        None => 0,
        Some(name) => match calendar::zone_offset_seconds(name, utc_unix_seconds) {
            Some(offset) => offset_hours(offset),
            None => 0,
        },
    }
}

/// Write local date and time in the time zone in use. `None` comes back if there is
/// none or the instant lies outside the calendar.
pub fn local_from_utc_unix(zones: &ZoneSettings, utc_unix_seconds: i64) -> (r: Option<
    (String, String),
>)
    requires
        calendar::in_calendar(utc_unix_seconds as int) ==> calendar::in_calendar(
            utc_unix_seconds - calendar::DAY_SECONDS,
        ) && calendar::in_calendar(utc_unix_seconds + calendar::DAY_SECONDS),
    ensures
        r is Some <==> zones.active() is Some && calendar::in_calendar(utc_unix_seconds as int),
        r matches Some((date, time)) ==> {
            let offset = calendar::zone_offset(zones.active()->0, utc_unix_seconds as int);
            &&& date@ == local_date_text(utc_unix_seconds as int, offset)
            &&& time@ == local_time_text(utc_unix_seconds as int, offset)
        },
{
    match zones.find_active() {
        None => None,
        Some(name) => match calendar::zone_offset_seconds(name, utc_unix_seconds) {
            Some(offset) => Some(local_at_offset(utc_unix_seconds, offset)),
            None => None,
        },
    }
}

/// The offset from UTC that local time has at an instant: that of the time zone in
/// use, or else the given whole hours.
pub open spec fn offset_at(zones: &ZoneSettings, lon_hours: i8, unix: int) -> int {
    match zones.active() {
        Some(name) => calendar::zone_offset(name, unix),
        None => lon_hours * 3600,
    }
}

/// Find the offset from UTC that local time has at an instant.
fn find_offset(zones: &ZoneSettings, lon_hours: i8, unix: i64) -> (r: i32)
    requires
        calendar::in_calendar(unix as int),
    ensures
        r == offset_at(zones, lon_hours, unix as int),
        zones.active() is Some ==> calendar::under_a_day(r as int),
        -500_000 < r < 500_000,
{
    match zones.find_active() {
        None => lon_hours as i32 * 3600,
        Some(name) => match calendar::zone_offset_seconds(name, unix) {
            Some(offset) => offset,
            None => 0,
        },
    }
}

/// What a snapshot shows as local date, local time and hours from UTC for the date
/// and time fields of a sentence.
///
/// If there is no such date and time, the fields themselves are shown, with the
/// offset 0.
pub open spec fn shown_local(
    date: Seq<char>,
    time: Seq<char>,
    zones: &ZoneSettings,
    lon_hours: i8,
) -> (Seq<char>, Seq<char>, int) {
    match utc_unix(date, time) {
        Some(unix) => {
            let offset = offset_at(zones, lon_hours, unix);
            (local_date_text(unix, offset), local_time_text(unix, offset), whole_hours(offset))
        },
        None => (
            "20"@ + date.subrange(4, 6) + "-"@ + date.subrange(2, 4) + "-"@ + date.subrange(0, 2),
            time.subrange(0, 2) + ":"@ + time.subrange(2, 4) + ":"@ + time.subrange(4, 6),
            0,
        ),
    }
}

/// Write the date field itself as a date of this century.
fn format_ddmmyy(raw6: &[char]) -> (r: String)
    requires
        raw6@.len() == 6,
    ensures
        r@ == "20"@ + raw6@.subrange(4, 6) + "-"@ + raw6@.subrange(2, 4) + "-"@ + raw6@.subrange(
            0,
            2,
        ),
{
    let mut out = "20".to_owned();
    out.append(text::string_of(slice_subrange(raw6, 4, 6)).as_str());
    out.append("-");
    out.append(text::string_of(slice_subrange(raw6, 2, 4)).as_str());
    out.append("-");
    out.append(text::string_of(slice_subrange(raw6, 0, 2)).as_str());
    out
}

/// Write the time field itself with colons.
fn format_hhmmss(raw6: &[char]) -> (r: String)
    requires
        raw6@.len() == 6,
    ensures
        r@ == raw6@.subrange(0, 2) + ":"@ + raw6@.subrange(2, 4) + ":"@ + raw6@.subrange(4, 6),
{
    let mut out = text::string_of(slice_subrange(raw6, 0, 2));
    out.append(":");
    out.append(text::string_of(slice_subrange(raw6, 2, 4)).as_str());
    out.append(":");
    out.append(text::string_of(slice_subrange(raw6, 4, 6)).as_str());
    out
}

/// Write local date and time for the date and time fields of a sentence. `None`
/// comes back if there is no such date and time.
pub fn local_datetime_from_utc(
    date: &[char],
    time: &[char],
    lon_hours: i8,
    zones: &ZoneSettings,
) -> (r: Option<(String, String, i8)>)
    requires
        date@.len() == 6,
        time@.len() == 6,
    ensures
        r is Some <==> utc_unix(date@, time@) is Some,
        r matches Some((local_date, local_time, hours)) ==> (
            local_date@,
            local_time@,
            hours as int,
        ) == shown_local(date@, time@, zones, lon_hours),
{
    match utc_from_fields(date, time) {
        None => None,
        Some(unix) => {
            proof {
                calendar::lemma_calendar_fits();
            }
            let offset: i32 = find_offset(zones, lon_hours, unix);
            let (local_date, local_time) = local_at_offset(unix, offset);
            let hours: i32 = if offset >= 0 {
                offset / 3600
            } else {
                -((-offset) / 3600)
            };
            Some((local_date, local_time, hours as i8))
        },
    }
}

/// What an RMC sentence does to a snapshot.
pub open spec fn rmc_step(
    sentence: Seq<char>,
    position: Option<RmcPosition>,
    zones: &ZoneSettings,
    before: GpsSnapshot,
    after: GpsSnapshot,
) -> bool {
    let (date, time) = (rmc_date(sentence), rmc_time(sentence));
    match position {
        Some(position) if is_rmc(sentence) => {
            let shown = shown_local(date, time, zones, position.lon_hours);
            &&& after.local_date@ == shown.0
            &&& after.local_time@ == shown.1
            &&& after.tz_offset_hours == shown.2
            &&& (after.utc_unix_seconds is Some <==> utc_unix(date, time) is Some)
            &&& (after.utc_unix_seconds matches Some(unix) ==> utc_unix(date, time) == Some(
                unix as int,
            ))
            &&& after.lat_bits == position.lat_bits
            &&& after.lon_bits == position.lon_bits
            &&& after.fix == rmc_active(sentence)
            &&& after.sats == before.sats
            &&& after.altitude_bits == before.altitude_bits
        },
        _ => after == before,
    }
}

/// Take in an RMC sentence.
///
/// `position` is what the coordinates in the sentence stand for, `None` if one of
/// them is not a number. The snapshot changes only if the sentence is complete and
/// has a position.
pub fn parse_rmc(
    sentence: &str,
    position: Option<RmcPosition>,
    zones: &ZoneSettings,
    gps: &mut GpsSnapshot,
) -> (r: Option<()>)
    ensures
        r is Some <==> is_rmc(sentence@) && position is Some,
        rmc_step(sentence@, position, zones, *old(gps), *final(gps)),
{
    match (rmc_fields(sentence), position) {
        (Some(rmc), Some(position)) => {
            let date = rmc.date.as_slice();
            let time = rmc.time.as_slice();
            match local_datetime_from_utc(date, time, position.lon_hours, zones) {
                Some((local_date, local_time, hours)) => {
                    gps.local_date = local_date;
                    gps.local_time = local_time;
                    gps.tz_offset_hours = hours;
                },
                None => {
                    gps.local_date = format_ddmmyy(date);
                    gps.local_time = format_hhmmss(time);
                    gps.tz_offset_hours = 0;
                },
            }
            gps.utc_unix_seconds = utc_from_fields(date, time);
            gps.lat_bits = position.lat_bits;
            gps.lon_bits = position.lon_bits;
            gps.fix = rmc.active;
            Some(())
        },
        _ => None,
    }
}

/// Whether a sentence is a complete GGA sentence: its checksum is right, it has
/// eight fields, and the eighth is a number of satellites.
pub open spec fn is_gga(sentence: Seq<char>) -> bool {
    let f = text::fields(sentence, ',');
    &&& checksum_valid(encode_utf8(sentence))
    &&& f.len() >= 8
    &&& text::unsigned_number(f[7], 255) is Some
}

/// Get the altitude field of a sentence, if it has one.
pub fn gga_altitude_field(sentence: &str) -> (r: Option<String>)
    ensures
        r is Some <==> text::fields(sentence@, ',').len() >= 10,
        r matches Some(field) ==> field@ == text::fields(sentence@, ',')[9],
{
    let chars = text::chars_of(sentence);
    let fields = text::split(chars.as_slice(), ',');
    if fields.len() >= 10 {
        Some(text::string_of(fields[9].as_slice()))
    } else {
        None
    }
}

/// A snapshot after a GGA sentence.
pub open spec fn after_gga(
    sentence: Seq<char>,
    altitude: Option<u32>,
    before: GpsSnapshot,
) -> GpsSnapshot {
    if is_gga(sentence) {
        GpsSnapshot {
            sats: text::unsigned_number(text::fields(sentence, ',')[7], 255)->0 as u8,
            altitude_bits: if text::fields(sentence, ',').len() >= 10 {
                altitude
            } else {
                before.altitude_bits
            },
            ..before
        }
    } else {
        before
    }
}

/// Take in a GGA sentence.
///
/// `altitude` holds the bits of the number in the altitude field, `None` if it is
/// not a number. A sentence without that field leaves the altitude as it was.
pub fn parse_gga(sentence: &str, altitude: Option<u32>, gps: &mut GpsSnapshot) -> (r: Option<()>)
    ensures
        r is Some <==> is_gga(sentence@),
        *final(gps) == after_gga(sentence@, altitude, *old(gps)),
{
    if !nmea_checksum_valid(sentence) {
        return None;
    }
    let chars = text::chars_of(sentence);
    let fields = text::split(chars.as_slice(), ',');
    if fields.len() < 8 {
        return None;
    }
    match text::read_unsigned(fields[7].as_slice(), 255) {
        None => None,
        Some(sats) => {
            gps.sats = sats as u8;
            if fields.len() >= 10 {
                gps.altitude_bits = altitude;
            }
            Some(())
        },
    }
}

/// Text from the receiver that has not made up a line yet.
pub struct LineBuffer {
    /// Text after the last complete line.
    pub pending: String,
    /// Bytes received so far.
    pub bytes_seen: u64,
}

impl LineBuffer {
    /// An empty buffer.
    pub fn new() -> (r: Self)
        ensures
            r.pending@ == Seq::<char>::empty(),
            r.bytes_seen == 0,
    {
        LineBuffer { pending: String::new(), bytes_seen: 0 }
    }

    /// Take in bytes from the receiver. If they are no text, they are counted and
    /// dropped. Tells whether they are text.
    pub fn push_bytes(&mut self, chunk: &[u8]) -> (is_text: bool)
        requires
            old(self).bytes_seen + chunk@.len() <= u64::MAX,
        ensures
            is_text == valid_utf8(chunk@),
            final(self).bytes_seen == old(self).bytes_seen + chunk@.len(),
            final(self).pending@ == if valid_utf8(chunk@) {
                old(self).pending@ + decode_utf8(chunk@)
            } else {
                old(self).pending@
            },
    {
        self.bytes_seen = self.bytes_seen + chunk.len() as u64;
        match text::utf8_text(chunk) {
            Some(text) => {
                self.pending.append(text);
                true
            },
            None => false,
        }
    }

    /// Take the first complete line out of the buffer, without the white space
    /// around it. `None` comes back if there is no complete line.
    pub fn next_line(&mut self) -> (r: Option<String>)
        ensures
            final(self).bytes_seen == old(self).bytes_seen,
            ({
                let end = text::first_index(old(self).pending@, '\n');
                if end < old(self).pending@.len() {
                    &&& r is Some
                    &&& r->0@ == text::trimmed(old(self).pending@.take(end))
                    &&& final(self).pending@ == old(self).pending@.skip(end + 1)
                } else {
                    r is None && final(self).pending@ == old(self).pending@
                }
            }),
    {
        let chars = text::chars_of(self.pending.as_str());
        let end: usize = text::index_of(chars.as_slice(), '\n');
        if end >= chars.len() {
            return None;
        }
        let line = slice_subrange(chars.as_slice(), 0, end);
        assert(line@ == self.pending@.take(end as int));
        let rest = slice_subrange(chars.as_slice(), end + 1, chars.len());
        assert(rest@ == self.pending@.skip(end + 1));
        self.pending = text::string_of(rest);
        Some(text::string_of(text::trim(line)))
    }
}

/// What a line from the receiver is.
#[derive(Debug, Clone, Copy, PartialEq, Eq, Structural)]
pub enum SentenceKind {
    /// An RMC sentence.
    Rmc,
    /// A GGA sentence.
    Gga,
    /// Anything else.
    Other,
}

/// The kind of a line, by its first characters.
pub open spec fn kind_of(line: Seq<char>) -> SentenceKind {
    if text::begins_with(line, "$GNRMC"@) || text::begins_with(line, "$GPRMC"@) {
        SentenceKind::Rmc
    } else if text::begins_with(line, "$GNGGA"@) || text::begins_with(line, "$GPGGA"@) {
        SentenceKind::Gga
    } else {
        SentenceKind::Other
    }
}

/// Tell what a line is.
pub fn classify(line: &str) -> (r: SentenceKind)
    ensures
        r == kind_of(line@),
{
    let chars = text::chars_of(line);
    if text::starts_with(chars.as_slice(), "$GNRMC") || text::starts_with(
        chars.as_slice(),
        "$GPRMC",
    ) {
        SentenceKind::Rmc
    } else if text::starts_with(chars.as_slice(), "$GNGGA") || text::starts_with(
        chars.as_slice(),
        "$GPGGA",
    ) {
        SentenceKind::Gga
    } else {
        SentenceKind::Other
    }
}

/// Replacing one byte between `$` and `*` by another changes the checksum.
pub proof fn law_checksum_catches_one_byte(bytes: Seq<u8>, i: int, b: u8)
    requires
        0 <= i < bytes.len(),
        b != bytes[i],
    ensures
        xor_all(bytes.update(i, b)) != xor_all(bytes),
    decreases bytes.len(),
{
    let last = bytes.last();
    let init = bytes.drop_last();
    if i == bytes.len() - 1 {
        assert(bytes.update(i, b).drop_last() =~= init);
        let x = xor_all(init);
        assert(b != last ==> x ^ b != x ^ last) by (bit_vector);
    } else {
        assert(bytes.update(i, b).drop_last() =~= init.update(i, b));
        law_checksum_catches_one_byte(init, i, b);
        let (x, y) = (xor_all(init.update(i, b)), xor_all(init));
        assert(x != y ==> x ^ last != y ^ last) by (bit_vector);
    }
}

/// The complete lines of a text, without the white space around them.
pub open spec fn complete_lines(s: Seq<char>) -> Seq<Seq<char>>
    decreases s.len(),
{
    let end = text::first_index(s, '\n');
    if 0 <= end < s.len() {
        seq![text::trimmed(s.take(end))] + complete_lines(s.skip(end + 1))
    } else {
        Seq::empty()
    }
}

/// What stands behind the last complete line of a text.
pub open spec fn leftover(s: Seq<char>) -> Seq<char>
    decreases s.len(),
{
    let end = text::first_index(s, '\n');
    if 0 <= end < s.len() {
        leftover(s.skip(end + 1))
    } else {
        s
    }
}

/// Where the receiver's text is cut into chunks does not matter: taking the lines out
/// after each of two chunks gives the same lines, and leaves the same text, as taking
/// them out after both.
pub proof fn law_chunks_add_up(first: Seq<char>, second: Seq<char>)
    ensures
        complete_lines(first + second) == complete_lines(first) + complete_lines(
            leftover(first) + second,
        ),
        leftover(first + second) == leftover(leftover(first) + second),
    decreases first.len(),
{
    let end = text::first_index(first, '\n');
    let both = first + second;
    text::lemma_at_first_index(first, '\n');
    if end < first.len() {
        assert forall|j: int| 0 <= j < end implies both[j] != '\n' by {
            assert(both[j] == first[j]);
        }
        text::lemma_first_index(both, '\n', end);
        assert(both.take(end) == first.take(end));
        assert(both.skip(end + 1) == first.skip(end + 1) + second);
        law_chunks_add_up(first.skip(end + 1), second);
        assert(complete_lines(both) == complete_lines(first) + complete_lines(
            leftover(first) + second,
        ));
    } else {
        assert(complete_lines(first) + complete_lines(both) == complete_lines(both));
    }
}

/// An offset of the time zone in use is used as it is, and whole hours of longitude
/// only where there is none.
pub proof fn law_time_zone_overrides_longitude(
    zones: &ZoneSettings,
    a_hours: i8,
    b_hours: i8,
    unix: int,
)
    requires
        zones.active() is Some,
    ensures
        offset_at(zones, a_hours, unix) == offset_at(zones, b_hours, unix),
{
}

/// A date and a time of day that exist, written as `ddmmyy` and `hhmmss` with two digits
/// each, are read as the Unix seconds of that instant.
pub proof fn law_date_and_time_are_read(date: Seq<char>, time: Seq<char>, t: CivilTime)
    requires
        date.len() == 6,
        time.len() == 6,
        forall|i: int| 0 <= i < 6 ==> '0' <= #[trigger] date[i] <= '9',
        forall|i: int| 0 <= i < 6 ==> '0' <= #[trigger] time[i] <= '9',
        t.day == 10 * (date[0] as int - 48) + (date[1] as int - 48),
        t.month == 10 * (date[2] as int - 48) + (date[3] as int - 48),
        t.year == 2000 + 10 * (date[4] as int - 48) + (date[5] as int - 48),
        t.hour == 10 * (time[0] as int - 48) + (time[1] as int - 48),
        t.minute == 10 * (time[2] as int - 48) + (time[3] as int - 48),
        t.second == 10 * (time[4] as int - 48) + (time[5] as int - 48),
    ensures
        utc_unix(date, time) == if t.is_valid() {
            Some(t.unix())
        } else {
            None
        },
{
    lemma_digit_pair(date, 0);
    lemma_digit_pair(date, 2);
    lemma_digit_pair(date, 4);
    lemma_digit_pair(time, 0);
    lemma_digit_pair(time, 2);
    lemma_digit_pair(time, 4);
    assert(utc_civil(date, time) == Some(t));
}

/// Two digits are read as the number that they stand for.
proof fn lemma_digit_pair(s: Seq<char>, at: int)
    requires
        0 <= at <= s.len() - 2,
        '0' <= s[at] <= '9',
        '0' <= s[at + 1] <= '9',
    ensures
        ({
            let pair = s.subrange(at, at + 2);
            let n = 10 * (s[at] as int - 48) + (s[at + 1] as int - 48);
            &&& text::unsigned_number(pair, 99) == Some(n)
            &&& text::signed_number(pair, -99, 99) == Some(n)
        }),
{
    let pair = s.subrange(at, at + 2);
    assert(pair.drop_last() == seq![s[at]]);
    assert(seq![s[at]].drop_last() == Seq::<char>::empty());
    reveal_with_fuel(text::digits_value, 3);
    assert(pair[0] == s[at] && pair.last() == s[at + 1]);
    assert(text::all_digits(pair));
}

/// What stands in a sentence between commas is read by its place: an RMC sentence gives
/// its second piece as time of day, its third as status and its tenth as date; a GGA
/// sentence gives its eighth as number of satellites.
pub proof fn law_pieces_are_read_by_place(sentence: Seq<char>, pieces: Seq<Seq<char>>)
    requires
        text::fields(sentence, ',') == pieces,
        checksum_valid(encode_utf8(sentence)),
    ensures
        ({
            let six = |i: int|
                pieces[i].len() >= 6 && forall|j: int|
                    0 <= j < pieces[i].len() ==> (#[trigger] pieces[i][j] as int) < 128;
            &&& is_rmc(sentence) <==> pieces.len() >= 10 && six(1) && six(9)
            &&& is_rmc(sentence) ==> rmc_time(sentence) == pieces[1].take(6)
            &&& is_rmc(sentence) ==> rmc_date(sentence) == pieces[9].take(6)
            &&& is_rmc(sentence) ==> (rmc_active(sentence) <==> pieces[2] == seq!['A'])
            &&& is_gga(sentence) <==> pieces.len() >= 8 && text::unsigned_number(pieces[7], 255)
                is Some
        }),
{
    reveal_strlit("A");
    assert("A"@ == seq!['A']);
}

/// The number of satellites of a GGA sentence is what is read from its eighth piece, and
/// the altitude changes only with a tenth. Nothing else of the snapshot changes.
pub proof fn law_satellites_are_counted(
    sentence: Seq<char>,
    count: u8,
    altitude: Option<u32>,
    before: GpsSnapshot,
)
    requires
        checksum_valid(encode_utf8(sentence)),
        text::fields(sentence, ',').len() >= 8,
        text::fields(sentence, ',')[7] == text::dec(count as int),
    ensures
        ({
            let after = after_gga(sentence, altitude, before);
            &&& after.sats == count
            &&& after.altitude_bits == if text::fields(sentence, ',').len() >= 10 {
                altitude
            } else {
                before.altitude_bits
            }
            &&& after == (GpsSnapshot { sats: after.sats, altitude_bits: after.altitude_bits, ..before
            })
        }),
{
    text::law_number_is_read_back(count as int, 255);
}

/// A sentence with a wrong checksum changes nothing.
pub proof fn law_bad_checksum_changes_nothing(
    sentence: Seq<char>,
    position: Option<RmcPosition>,
    altitude: Option<u32>,
    zones: &ZoneSettings,
    before: GpsSnapshot,
    after: GpsSnapshot,
)
    requires
        !checksum_valid(encode_utf8(sentence)),
        rmc_step(sentence, position, zones, before, after),
    ensures
        after == before,
        after_gga(sentence, altitude, before) == before,
{
}

/// An RMC sentence with a position gives UTC, fix and position as it says, and local
/// time by the time zone in use; satellites and altitude stay.
pub proof fn law_rmc_sets_the_snapshot(
    sentence: Seq<char>,
    position: RmcPosition,
    zones: &ZoneSettings,
    before: GpsSnapshot,
    after: GpsSnapshot,
)
    requires
        is_rmc(sentence),
        rmc_step(sentence, Some(position), zones, before, after),
    ensures
        match utc_unix(rmc_date(sentence), rmc_time(sentence)) {
            Some(unix) => after.utc_unix_seconds is Some && after.utc_unix_seconds->0 == unix,
            None => after.utc_unix_seconds is None && after.tz_offset_hours == 0,
        },
        after.fix == (text::fields(sentence, ',')[2] == seq!['A']),
        after.lat_bits == position.lat_bits,
        after.lon_bits == position.lon_bits,
        after.sats == before.sats,
        after.altitude_bits == before.altitude_bits,
{
    reveal_strlit("A");
    assert("A"@ == seq!['A']);
}

/// Local date and time are those of the instant moved on by the offset: of the time zone
/// in use, or of the whole hours of longitude. The hours shown are those of the offset,
/// rounded towards zero.
pub proof fn law_local_time_is_moved_on(
    date: Seq<char>,
    time: Seq<char>,
    zones: &ZoneSettings,
    lon_hours: i8,
    local: CivilTime,
)
    requires
        utc_unix(date, time) is Some,
        local.is_valid(),
        0 <= local.year <= 9999,
        local.unix() == utc_unix(date, time)->0 + match zones.active() {
            Some(name) => calendar::zone_offset(name, utc_unix(date, time)->0),
            None => 3600 * lon_hours,
        },
    ensures
        ({
            let shown = shown_local(date, time, zones, lon_hours);
            let offset = local.unix() - utc_unix(date, time)->0;
            let digits = |n: int, from: int|
                10 * (shown.1[from] as int - 48) + (shown.1[from + 1] as int - 48) == n;
            let day = |n: int, from: int|
                10 * (shown.0[from] as int - 48) + (shown.0[from + 1] as int - 48) == n;
            &&& shown.1.len() == 8 && shown.1[2] == ':' && shown.1[5] == ':'
            &&& digits(local.hour as int, 0) && digits(local.minute as int, 3) && digits(
                local.second as int,
                6,
            )
            &&& shown.0.len() == 10 && shown.0[4] == '-' && shown.0[7] == '-'
            &&& day(local.year as int / 100, 0) && day(local.year as int % 100, 2)
            &&& day(local.month as int, 5) && day(local.day as int, 8)
            &&& offset >= 0 ==> 3600 * shown.2 <= offset < 3600 * (shown.2 + 1)
            &&& offset < 0 ==> 3600 * (shown.2 - 1) < offset <= 3600 * shown.2
        }),
{
    calendar::law_civil_at(local);
    calendar::law_date_and_time_texts(local);
}

/// The exclusive or of two rows of bytes together is that of the two results, and that
/// of one byte is the byte.
pub proof fn law_checksum_adds_up(a: Seq<u8>, b: Seq<u8>, c: u8)
    ensures
        xor_all(a + b) == xor_all(a) ^ xor_all(b),
        xor_all(seq![c]) == c,
    decreases b.len(),
{
    reveal_with_fuel(xor_all, 2);
    assert(seq![c].drop_last() == Seq::<u8>::empty());
    assert(0u8 ^ c == c) by (bit_vector);
    if b.len() == 0 {
        assert(a + b == a);
        let x = xor_all(a);
        assert(x ^ 0u8 == x) by (bit_vector);
    } else {
        law_checksum_adds_up(a, b.drop_last(), c);
        assert((a + b).drop_last() == a + b.drop_last());
        let (x, y, z) = (xor_all(a), xor_all(b.drop_last()), b.last());
        assert((x ^ y) ^ z == x ^ (y ^ z)) by (bit_vector);
    }
}

/// Whether two characters are the hexadecimal digits of a byte, in either case.
pub open spec fn spells_byte(high: u8, low: u8, byte: u8) -> bool {
    let is = |c: u8, d: int|
        d < 10 && c == 48 + d || d >= 10 && (c == 55 + d || c == 87 + d);
    is(high, byte as int / 16) && is(low, byte as int % 16)
}

/// A sentence made of `$`, a body without `*`, `*` and two characters is good exactly if
/// the two are the hexadecimal digits of the exclusive or of the body.
pub proof fn law_checksum_is_two_hex_digits(body: Seq<u8>, high: u8, low: u8, rest: Seq<u8>)
    requires
        !body.contains(0x2A),
        high != 0x2A,
        low != 0x2A,
        !rest.contains(0x2A),
    ensures
        checksum_valid(seq![0x24u8] + body + seq![0x2Au8, high, low] + rest) <==> spells_byte(
            high,
            low,
            xor_all(body),
        ),
{
    let s = seq![0x24u8] + body + seq![0x2Au8, high, low] + rest;
    let star: int = body.len() as int + 1;
    assert(s[star] == 0x2A && s[star + 1] == high && s[star + 2] == low);
    assert forall|j: int| star < j < s.len() implies s[j] != 0x2A by {
        if j >= star + 3 {
            assert(s[j] == rest[j - star - 3]);
            assert(rest.contains(rest[j - star - 3]));
        }
    }
    lemma_last_star(s, star);
    assert(s.subrange(1, star) == body);
}

/// The last `*` is the one that none comes after.
proof fn lemma_last_star(bytes: Seq<u8>, star: int)
    requires
        0 <= star < bytes.len(),
        bytes[star] == 0x2A,
        forall|j: int| star < j < bytes.len() ==> bytes[j] != 0x2A,
    ensures
        last_star(bytes) == star,
    decreases bytes.len(),
{
    if star < bytes.len() - 1 {
        lemma_last_star(bytes.drop_last(), star);
    }
}

/// A line is an RMC or a GGA sentence by its first six characters, of a GPS receiver or
/// of one for several systems.
pub proof fn law_kind_of_line(line: Seq<char>)
    ensures
        ({
            let starts = |a: char, b: char, c: char|
                line.len() >= 6 && line[0] == '$' && line[1] == 'G' && (line[2] == 'N' || line[2]
                    == 'P') && line[3] == a && line[4] == b && line[5] == c;
            &&& kind_of(line) == SentenceKind::Rmc <==> starts('R', 'M', 'C')
            &&& kind_of(line) == SentenceKind::Gga <==> starts('G', 'G', 'A')
        }),
{
    reveal_strlit("$GNRMC");
    reveal_strlit("$GPRMC");
    reveal_strlit("$GNGGA");
    reveal_strlit("$GPGGA");
    lemma_six(line, "$GNRMC"@);
    lemma_six(line, "$GPRMC"@);
    lemma_six(line, "$GNGGA"@);
    lemma_six(line, "$GPGGA"@);
}

/// A text begins with six characters if each of them stands in its place.
proof fn lemma_six(line: Seq<char>, prefix: Seq<char>)
    requires
        prefix.len() == 6,
    ensures
        text::begins_with(line, prefix) <==> line.len() >= 6 && line[0] == prefix[0] && line[1]
            == prefix[1] && line[2] == prefix[2] && line[3] == prefix[3] && line[4] == prefix[4]
            && line[5] == prefix[5],
{
    if line.len() >= 6 {
        let head = line.take(6);
        if line[0] == prefix[0] && line[1] == prefix[1] && line[2] == prefix[2] && line[3]
            == prefix[3] && line[4] == prefix[4] && line[5] == prefix[5] {
            assert(head =~= prefix);
        }
        if head == prefix {
            assert(line[0] == head[0] && line[1] == head[1] && line[2] == head[2] && line[3]
                == head[3] && line[4] == head[4] && line[5] == head[5]);
        }
    }
}

/// A date or time that does not exist is shown as the sentence has it, as a date of this
/// century and with colons, at no offset.
pub proof fn law_fields_are_shown_as_they_are(
    date: Seq<char>,
    time: Seq<char>,
    zones: &ZoneSettings,
    lon_hours: i8,
)
    requires
        date.len() == 6,
        time.len() == 6,
        utc_unix(date, time) is None,
    ensures
        shown_local(date, time, zones, lon_hours) == (
            seq!['2', '0', date[4], date[5], '-', date[2], date[3], '-', date[0], date[1]],
            seq![time[0], time[1], ':', time[2], time[3], ':', time[4], time[5]],
            0int,
        ),
{
    reveal_strlit("20");
    reveal_strlit("-");
    reveal_strlit(":");
    let shown = shown_local(date, time, zones, lon_hours);
    assert(shown.0 =~= seq!['2', '0', date[4], date[5], '-', date[2], date[3], '-', date[0], date[1]]);
    assert(shown.1 =~= seq![time[0], time[1], ':', time[2], time[3], ':', time[4], time[5]]);
}

/// The time zone set at run time is in use if its name is known, then the default one if
/// that is known, and otherwise none.
pub proof fn law_time_zone_in_use(zones: ZoneSettings)
    ensures
        ({
            let known = |name: Option<String>| name is Some && calendar::zone_is_known(name->0@);
            &&& known(zones.runtime) ==> zones.active() == Some(zones.runtime->0@)
            &&& !known(zones.runtime) && known(zones.fallback) ==> zones.active() == Some(
                zones.fallback->0@,
            )
            &&& !known(zones.runtime) && !known(zones.fallback) ==> zones.active() is None
        }),
{
}

} // verus!
