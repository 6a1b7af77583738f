//! The PCF8523 real-time clock.
//!
//! The chip keeps date and time in seven registers of binary-coded decimals.

use crate::calendar::{self, CivilTime};
use vstd::prelude::*;

verus! {

/// I2C address of the chip.
pub const PCF8523_ADDR: u8 = 0x68;

/// Least time between two writes of disciplined time to the chip.
pub const WRITEBACK_INTERVAL_US: i64 = 60_000_000;

/// Least time between two seconds that stand in for GPS when its fix is lost.
pub const FALLBACK_INTERVAL_US: i64 = 1_000_000;

/// First year that the chip is believed; before it stands a chip that was never set.
pub const MIN_VALID_YEAR: i32 = 2020;

/// First control register.
pub const REG_CONTROL1: u8 = 0x00;

/// Second control register.
pub const REG_CONTROL2: u8 = 0x01;

/// Third control register.
pub const REG_CONTROL3: u8 = 0x02;

/// First of the time registers.
pub const REG_SECONDS: u8 = 0x03;

/// The bit of the first control register that stops the clock.
pub const STOP_BIT: u8 = 0x20;

/// Date and time in the fields of the chip.
#[derive(Debug, Clone, Copy, PartialEq, Eq, Structural)]
pub struct RtcDateTime {
    /// Year.
    pub year: i32,
    /// Month, from 1.
    pub month: u32,
    /// Day of the month, from 1.
    pub day: u32,
    /// Hour, up to 23.
    pub hour: u32,
    /// Minute, up to 59.
    pub minute: u32,
    /// Second, up to 59.
    pub second: u32,
}

impl RtcDateTime {
    /// The same date and time on the calendar.
    pub open spec fn civil(self) -> CivilTime {
        CivilTime {
            year: self.year,
            month: self.month,
            day: self.day,
            hour: self.hour,
            minute: self.minute,
            second: self.second,
        }
    }
}

/// A sample of the clock, for the time when GPS is lost.
#[derive(Debug, Clone, Copy, PartialEq, Eq, Structural)]
pub struct RtcSnapshot {
    /// Whether a chip is there.
    pub detected: bool,
    /// Its time, if that is valid.
    pub utc_unix_seconds: Option<i64>,
}

impl Default for RtcSnapshot {
    fn default() -> (r: Self)
        ensures
            r == (RtcSnapshot { detected: false, utc_unix_seconds: None }),
    {
        RtcSnapshot { detected: false, utc_unix_seconds: None }
    }
}

/// The number that two binary-coded digits stand for.
pub open spec fn bcd_value(byte: u8) -> int {
    byte % 16 + byte / 16 * 10
}

/// The two lowest decimal digits of what a register is given, binary-coded. The
/// tens are taken modulo sixteen.
pub open spec fn bcd_code(value: int) -> u8 {
    (value / 10 % 16 * 16 + value % 10) as u8
}

/// Read a binary-coded decimal.
pub fn bcd_to_dec(byte: u8) -> (r: u8)
    ensures
        r == bcd_value(byte),
{
    byte % 16 + byte / 16 * 10
}

/// Write a binary-coded decimal.
pub fn dec_to_bcd(value: u8) -> (r: u8)
    ensures
        r == bcd_code(value as int),
{
    value / 10 % 16 * 16 + value % 10
}

/// The fields that the seven time registers hold, without any check.
pub open spec fn register_fields(regs: Seq<u8>) -> RtcDateTime {
    RtcDateTime {
        year: (2000 + bcd_value(regs[6])) as i32,
        month: bcd_value(regs[4] % 32) as u32,
        day: bcd_value(regs[3] % 64) as u32,
        hour: bcd_value(regs[2] % 64) as u32,
        minute: bcd_value(regs[1] % 128) as u32,
        second: bcd_value(regs[0] % 128) as u32,
    }
}

/// Whether the seven time registers hold a time: the oscillator has not stopped,
/// every field is in its range, and the year is not before 2020.
pub open spec fn registers_valid(regs: Seq<u8>) -> bool {
    let t = register_fields(regs);
    &&& regs[0] < 128
    &&& 1 <= t.month <= 12
    &&& 1 <= t.day <= 31
    &&& t.hour <= 23
    &&& t.minute <= 59
    &&& t.second <= 59
    &&& t.year >= MIN_VALID_YEAR
}

/// Decode the seven time registers.
pub fn decode_datetime_regs(regs: [u8; 7]) -> (r: Option<RtcDateTime>)
    ensures
        r == if registers_valid(regs@) {
            Some(register_fields(regs@))
        } else {
            None
        },
{
    if regs[0] >= 128 {
        return None;
    }
    let second: u8 = bcd_to_dec(regs[0] % 128);
    let minute: u8 = bcd_to_dec(regs[1] % 128);
    let hour: u8 = bcd_to_dec(regs[2] % 64);
    let day: u8 = bcd_to_dec(regs[3] % 64);
    let month: u8 = bcd_to_dec(regs[4] % 32);
    let year: i32 = 2000 + bcd_to_dec(regs[6]) as i32;
    if month < 1 || month > 12 || day < 1 || day > 31 || hour > 23 || minute > 59 || second > 59
        || year < MIN_VALID_YEAR {
        return None;
    }
    Some(
        RtcDateTime {
            year,
            month: month as u32,
            day: day as u32,
            hour: hour as u32,
            minute: minute as u32,
            second: second as u32,
        },
    )
}

/// A year of the century of the chip; years before it count as its first, years
/// after it as its last.
pub open spec fn two_digit_year(year: int) -> int {
    if year < 2000 {
        0
    } else if year > 2099 {
        99
    } else {
        year - 2000
    }
}

/// The seven time registers for a date and time. The sixth is not read back and is
/// always 1.
pub open spec fn registers_for(t: RtcDateTime) -> Seq<u8> {
    seq![
        bcd_code(t.second as int % 256),
        bcd_code(t.minute as int % 256),
        bcd_code(t.hour as int % 256),
        bcd_code(t.day as int % 256),
        bcd_code(t.month as int % 256),
        1u8,
        bcd_code(two_digit_year(t.year as int)),
    ]
}

/// Encode a date and time into the seven time registers.
pub fn encode_datetime_regs(dt: RtcDateTime) -> (r: [u8; 7])
    requires
        dt.year - 2000 >= i32::MIN,
    ensures
        r@ == registers_for(dt),
{
    let since: i32 = dt.year - 2000;
    let year: u8 = if since < 0 {
        0
    } else if since > 99 {
        99
    } else {
        since as u8
    };
    let regs: [u8; 7] = [
        dec_to_bcd((dt.second % 256) as u8),
        dec_to_bcd((dt.minute % 256) as u8),
        dec_to_bcd((dt.hour % 256) as u8),
        dec_to_bcd((dt.day % 256) as u8),
        dec_to_bcd((dt.month % 256) as u8),
        1,
        dec_to_bcd(year),
    ];
    assert(regs@ == registers_for(dt));
    regs
}

/// Convert the fields of the chip to Unix seconds. `None` comes back when there is
/// no such date or time of day.
pub fn datetime_to_unix_seconds(dt: RtcDateTime) -> (r: Option<i64>)
    ensures
        r is Some <==> dt.civil().is_valid(),
        r matches Some(unix) ==> unix == dt.civil().unix(),
{
    calendar::unix_from_civil(
        CivilTime {
            year: dt.year,
            month: dt.month,
            day: dt.day,
            hour: dt.hour,
            minute: dt.minute,
            second: dt.second,
        },
    )
}

/// Convert Unix seconds to the fields of the chip. `None` comes back outside the
/// calendar.
pub fn unix_seconds_to_datetime(unix_seconds: i64) -> (r: Option<RtcDateTime>)
    ensures
        r is Some <==> calendar::in_calendar(unix_seconds as int),
        r matches Some(dt) ==> dt.civil() == calendar::civil_at(unix_seconds as int)
            && dt.civil().is_valid() && dt.civil().unix() == unix_seconds,
{
    match calendar::civil_from_unix(unix_seconds) {
        Some(t) => Some(
            RtcDateTime {
                year: t.year,
                month: t.month,
                day: t.day,
                hour: t.hour,
                minute: t.minute,
                second: t.second,
            },
        ),
        None => None,
    }
}

/// Write Unix seconds as date and time at a fixed number of hours from UTC. `None`
/// comes back outside the calendar.
pub fn local_date_time_from_utc(utc_unix_seconds: i64, tz_offset_hours: i8) -> (r: Option<
    (String, String),
>)
    requires
        calendar::in_calendar(utc_unix_seconds as int) ==> calendar::in_calendar(
            utc_unix_seconds + tz_offset_hours * 3600,
        ),
    ensures
        r is Some <==> calendar::in_calendar(utc_unix_seconds as int),
        r matches Some((date, time)) ==> {
            let local = calendar::civil_at(utc_unix_seconds + tz_offset_hours * 3600);
            &&& date@ == calendar::date_text(
                calendar::plain_year_text(local.year as int),
                local.month as int,
                local.day as int,
            )
            &&& time@ == calendar::time_text(
                local.hour as int,
                local.minute as int,
                local.second as int,
            )
        },
{
    match calendar::civil_from_unix(utc_unix_seconds) {
        None => None,
        Some(_) => {
            proof {
                calendar::lemma_calendar_fits();
            }
            match calendar::civil_from_unix(utc_unix_seconds + tz_offset_hours as i64 * 3600) {
                Some(local) => Some(
                    (
                        calendar::write_date(
                            calendar::write_plain_year(local.year),
                            local.month,
                            local.day,
                        ),
                        calendar::write_time(local.hour, local.minute, local.second),
                    ),
                ),
                None => None,
            }
        },
    }
}

/// Whether the chip answers on the bus.
#[derive(Debug, Clone, Copy, PartialEq, Eq, Structural)]
pub enum RtcProbe {
    /// It does.
    Present,
    /// It does not.
    Absent,
}

/// Why the chip gives no time.
#[derive(Debug, Clone, Copy, PartialEq, Eq, Structural)]
pub enum RtcReadError {
    /// The registers hold no valid time, or none that was ever set.
    InvalidRegisters,
    /// The registers hold a date that does not exist.
    InvalidDate,
}

/// Get Unix seconds from the seven time registers.
pub fn unix_seconds_from_regs(regs: [u8; 7]) -> (r: Result<i64, RtcReadError>)
    ensures
        r is Err && r->Err_0 == RtcReadError::InvalidRegisters <==> !registers_valid(regs@),
        r is Err && r->Err_0 == RtcReadError::InvalidDate <==> registers_valid(regs@)
            && !register_fields(regs@).civil().is_valid(),
        r matches Ok(unix) ==> unix == register_fields(regs@).civil().unix(),
{
    match decode_datetime_regs(regs) {
        None => Err(RtcReadError::InvalidRegisters),
        Some(dt) => match datetime_to_unix_seconds(dt) {
            Some(unix) => Ok(unix),
            None => Err(RtcReadError::InvalidDate),
        },
    }
}

/// The message that writes Unix seconds to the chip: the address of the first time
/// register, then the seven registers. `None` comes back outside the calendar.
pub fn write_message(unix_seconds: i64) -> (r: Option<[u8; 8]>)
    ensures
        r is Some <==> calendar::in_calendar(unix_seconds as int),
        r matches Some(message) ==> exists|dt: RtcDateTime|
            dt.civil() == calendar::civil_at(unix_seconds as int) && dt.civil().is_valid()
                && dt.civil().unix() == unix_seconds && message@ == seq![
                REG_SECONDS,
            ] + #[trigger] registers_for(dt),
{
    match unix_seconds_to_datetime(unix_seconds) {
        None => None,
        Some(dt) => {
            let regs = encode_datetime_regs(dt);
            let message: [u8; 8] = [
                REG_SECONDS,
                regs[0],
                regs[1],
                regs[2],
                regs[3],
                regs[4],
                regs[5],
                regs[6],
            ];
            assert(message@ == seq![REG_SECONDS] + registers_for(dt));
            Some(message)
        },
    }
}

/// The control register with the clock stopped.
pub fn control_stopped(control: u8) -> (r: u8)
    ensures
        r == control | STOP_BIT,
{
    control | STOP_BIT
}

/// The control register with the clock running.
pub fn control_running(control: u8) -> (r: u8)
    ensures
        r == control & !STOP_BIT,
{
    control & !STOP_BIT
}

/// What was found of the chip at start-up.
#[derive(Debug, Clone, Copy, PartialEq, Eq, Structural)]
pub struct RtcDevice {
    /// Whether the chip answered.
    pub present: bool,
    /// Its time, if that is valid.
    pub boot_utc: Option<i64>,
}

impl RtcDevice {
    /// Sum up the probe and what was read from the registers.
    pub fn init(probe: RtcProbe, regs: Option<[u8; 7]>) -> (r: Self)
        ensures
            r.present == (probe == RtcProbe::Present),
            r.boot_utc is Some <==> probe == RtcProbe::Present && regs is Some && registers_valid(
                regs->0@,
            ) && register_fields(regs->0@).civil().is_valid(),
            r.boot_utc matches Some(unix) ==> unix == register_fields(regs->0@).civil().unix(),
    {
        let present: bool = matches!(probe, RtcProbe::Present);
        let boot_utc: Option<i64> = match regs {
            Some(regs) if present => match unix_seconds_from_regs(regs) {
                Ok(unix) => Some(unix),
                Err(_) => None,
            },
            _ => None,
        };
        RtcDevice { present, boot_utc }
    }
}

/// Two decimal digits survive being binary-coded and read back.
pub proof fn law_bcd_round_trip(value: u8)
    requires
        value <= 99,
    ensures
        bcd_value(bcd_code(value as int)) == value,
{
}

/// Encoding a date and time of the years 2020 to 2099, with every field in its range,
/// into the registers and decoding them gives it again.
pub proof fn law_registers_round_trip(dt: RtcDateTime)
    requires
        MIN_VALID_YEAR <= dt.year <= 2099,
        1 <= dt.month <= 12,
        1 <= dt.day <= 31,
        dt.hour <= 23,
        dt.minute <= 59,
        dt.second <= 59,
    ensures
        registers_valid(registers_for(dt)),
        register_fields(registers_for(dt)) == dt,
{
    lemma_registers_for(dt);
    lemma_fields(registers_for(dt), dt);
}

/// An instant of the years 2020 to 2099 that is written to the registers is read back
/// as the same Unix seconds.
pub proof fn law_instant_is_read_back(unix_seconds: int, dt: RtcDateTime)
    requires
        dt.civil().is_valid(),
        dt.civil().unix() == unix_seconds,
        MIN_VALID_YEAR <= dt.year <= 2099,
    ensures
        registers_valid(registers_for(dt)),
        register_fields(registers_for(dt)).civil().is_valid(),
        register_fields(registers_for(dt)).civil().unix() == unix_seconds,
{
    law_registers_round_trip(dt);
}

/// The registers for a date and time whose fields fit.
proof fn lemma_registers_for(dt: RtcDateTime)
    requires
        dt.second <= 59,
        dt.minute <= 59,
        dt.hour <= 23,
        dt.day <= 31,
        dt.month <= 12,
        2000 <= dt.year <= 2099,
    ensures
        registers_for(dt)[0] == bcd_code(dt.second as int),
        registers_for(dt)[1] == bcd_code(dt.minute as int),
        registers_for(dt)[2] == bcd_code(dt.hour as int),
        registers_for(dt)[3] == bcd_code(dt.day as int),
        registers_for(dt)[4] == bcd_code(dt.month as int),
        registers_for(dt)[6] == bcd_code(dt.year - 2000),
{
    let fits = |v: int| v % 256 == v;
    assert(fits(dt.second as int) && fits(dt.minute as int) && fits(dt.hour as int) && fits(
        dt.day as int,
    ) && fits(dt.month as int));
    let regs = registers_for(dt);
    assert(regs[0] == bcd_code(dt.second as int % 256));
    assert(regs[1] == bcd_code(dt.minute as int % 256));
    assert(regs[2] == bcd_code(dt.hour as int % 256));
    assert(regs[3] == bcd_code(dt.day as int % 256));
    assert(regs[4] == bcd_code(dt.month as int % 256));
    assert(two_digit_year(dt.year as int) == dt.year - 2000);
}

/// What registers that hold the codes of the fields read as.
proof fn lemma_fields(regs: Seq<u8>, dt: RtcDateTime)
    requires
        dt.second <= 59,
        dt.minute <= 59,
        dt.hour <= 23,
        1 <= dt.day <= 31,
        1 <= dt.month <= 12,
        MIN_VALID_YEAR <= dt.year <= 2099,
        regs[0] == bcd_code(dt.second as int),
        regs[1] == bcd_code(dt.minute as int),
        regs[2] == bcd_code(dt.hour as int),
        regs[3] == bcd_code(dt.day as int),
        regs[4] == bcd_code(dt.month as int),
        regs[6] == bcd_code(dt.year - 2000),
    ensures
        registers_valid(regs),
        register_fields(regs) == dt,
{
    assert(regs[0] < 128 && bcd_value(regs[0] % 128) == dt.second) by {
        lemma_register(dt.second as int);
    }
    assert(bcd_value(regs[1] % 128) == dt.minute) by {
        lemma_register(dt.minute as int);
    }
    assert(bcd_value(regs[2] % 64) == dt.hour) by {
        lemma_register(dt.hour as int);
    }
    assert(bcd_value(regs[3] % 64) == dt.day) by {
        lemma_register(dt.day as int);
    }
    assert(bcd_value(regs[4] % 32) == dt.month) by {
        lemma_register(dt.month as int);
    }
    assert(bcd_value(regs[6]) == dt.year - 2000) by {
        lemma_register(dt.year - 2000);
    }
}

/// A register keeps two digits, and the bits above what they need are zero.
proof fn lemma_register(value: int)
    requires
        0 <= value <= 99,
    ensures
        bcd_value(bcd_code(value)) == value,
        value <= 79 ==> bcd_code(value) < 128 && bcd_code(value) % 128 == bcd_code(value),
        value <= 39 ==> bcd_code(value) < 64 && bcd_code(value) % 64 == bcd_code(value),
        value <= 19 ==> bcd_code(value) < 32 && bcd_code(value) % 32 == bcd_code(value),
{
    law_bcd_round_trip(value as u8);
}

/// Converting a valid date and time to Unix seconds and back gives it again.
pub proof fn law_unix_round_trip(dt: RtcDateTime, back: RtcDateTime)
    requires
        dt.civil().is_valid(),
        back.civil() == calendar::civil_at(dt.civil().unix()),
    ensures
        back == dt,
{
    calendar::law_civil_at(dt.civil());
}

/// Stopping the clock and running it again leaves the other control bits alone.
pub proof fn law_stop_and_run(control: u8)
    ensures
        control & STOP_BIT == 0 ==> (control | STOP_BIT) & !STOP_BIT == control,
        (control & !STOP_BIT) & STOP_BIT == 0,
        (control | STOP_BIT) & STOP_BIT == STOP_BIT,
{
    assert(control & 0x20 == 0 ==> (control | 0x20) & !0x20u8 == control) by (bit_vector);
    assert((control & !0x20u8) & 0x20 == 0) by (bit_vector);
    assert((control | 0x20) & 0x20 == 0x20) by (bit_vector);
}

/// A clock whose oscillator has stopped, or that shows a year before 2020, a month, a day,
/// an hour, a minute or a second out of range, gives no time.
pub proof fn law_clock_without_a_time(regs: Seq<u8>)
    ensures
        ({
            let two = |b: int| 10 * (b / 16) + b % 16;
            let month = two(regs[4] as int % 32);
            let day = two(regs[3] as int % 64);
            &&& registers_valid(regs) <==> {
                &&& regs[0] < 0x80
                &&& two(regs[0] as int % 128) <= 59
                &&& two(regs[1] as int % 128) <= 59
                &&& two(regs[2] as int % 64) <= 23
                &&& 1 <= day <= 31
                &&& 1 <= month <= 12
                &&& two(regs[6] as int) >= 20
            }
            &&& register_fields(regs).year == 2000 + two(regs[6] as int)
            &&& register_fields(regs).month == month
            &&& register_fields(regs).day == day
            &&& register_fields(regs).hour == two(regs[2] as int % 64)
            &&& register_fields(regs).minute == two(regs[1] as int % 128)
            &&& register_fields(regs).second == two(regs[0] as int % 128)
        }),
{
}

/// Two digits are kept one in each half of a byte. Second, minute, hour, day and month
/// stand in this order, each as its lowest byte, then a one and the year of the century.
/// Years before 2000 are written as 2000 and years after 2099 as 2099.
pub proof fn law_digits_in_registers(t: RtcDateTime)
    ensures
        ({
            let code = |n: int| 16 * (n / 10 % 16) + n % 10;
            let regs = registers_for(t);
            &&& regs.len() == 7
            &&& regs[0] == code(t.second as int % 0x100)
            &&& regs[1] == code(t.minute as int % 0x100)
            &&& regs[2] == code(t.hour as int % 0x100)
            &&& regs[3] == code(t.day as int % 0x100)
            &&& regs[4] == code(t.month as int % 0x100)
            &&& regs[5] == 1
            &&& 2000 <= t.year <= 2099 ==> regs[6] == code(t.year - 2000)
            &&& t.year < 2000 ==> regs[6] == 0x00
            &&& t.year > 2099 ==> regs[6] == 0x99
        }),
{
}

/// The chip is at address 0x68. Its control registers are the first three, and the time
/// begins behind them. Bit five of the first stops it.
pub proof fn law_registers_of_the_chip(regs: Seq<u8>)
    ensures
        PCF8523_ADDR == 0x68,
        (REG_CONTROL1, REG_CONTROL2, REG_CONTROL3) == (0u8, 1u8, 2u8),
        (seq![REG_SECONDS] + regs)[0] == 3,
        STOP_BIT == 0x20,
{
}

/// The chip is set once a minute at most, and stands in for GPS once a second at most.
pub proof fn law_intervals_of_the_clock(since_us: i64)
    ensures
        since_us >= WRITEBACK_INTERVAL_US <==> since_us >= 60 * 1_000_000,
        since_us >= FALLBACK_INTERVAL_US <==> since_us >= 1_000_000,
{
}

} // verus!
