//! Battery fuel gauges.
//!
//! Voltages are single-precision numbers, charges are in 256ths of a percent. In units
//! of 2^-37 volts every voltage that either gauge reads is a whole number.

use crate::figures::{self, SINGLE_LIMIT};
use vstd::prelude::*;

verus! {

/// I2C address of the MAX17048.
pub const MAX17048_ADDR: u8 = 0x36;

/// I2C address of the LC709203.
pub const LC709203_ADDR: u8 = 0x0B;

/// One volt, in units of 2^-37 volts.
pub const VOLT_Q37: u128 = 0x20_0000_0000;

/// One step of the cell voltage of the MAX17048: the single-precision number that is
/// nearest to 78.125 microvolts, in units of 2^-37 volts.
pub const MAX17048_STEP_Q37: u128 = 10_737_418;

/// A reading of the gauge.
#[derive(Debug, Clone, Copy, PartialEq, Eq, Structural)]
pub struct BatterySnapshot {
    /// Cell voltage in units of 2^-37 volts.
    pub voltage_q37: u64,
    /// Charge in 256ths of a percent.
    pub percent_256: u32,
}

impl Default for BatterySnapshot {
    fn default() -> (r: Self)
        ensures
            r == (BatterySnapshot { voltage_q37: 0, percent_256: 0 }),
    {
        BatterySnapshot { voltage_q37: 0, percent_256: 0 }
    }
}

/// The gauges that are supported.
#[derive(Debug, Clone, Copy, PartialEq, Eq, Structural)]
pub enum BatteryMonitor {
    /// Maxim MAX17048.
    Max17048,
    /// ON Semiconductor LC709203.
    Lc709203,
}

/// What was found of the gauge at start-up.
#[derive(Debug, Clone, Copy, PartialEq, Eq, Structural)]
pub struct BatteryDevice {
    /// The gauge, if there is one.
    pub monitor: Option<BatteryMonitor>,
}

/// Address and registers of a gauge: I2C address, cell voltage, charge.
pub open spec fn registers_of(monitor: BatteryMonitor) -> (u8, u8, u8) {
    match monitor {
        BatteryMonitor::Max17048 => (MAX17048_ADDR, 0x02, 0x04),
        BatteryMonitor::Lc709203 => (LC709203_ADDR, 0x09, 0x0D),
    }
}

/// Look up address and registers of a gauge.
pub fn gauge_registers(monitor: BatteryMonitor) -> (r: (u8, u8, u8))
    ensures
        r == registers_of(monitor),
{
    match monitor {
        BatteryMonitor::Max17048 => (MAX17048_ADDR, 0x02, 0x04),
        BatteryMonitor::Lc709203 => (LC709203_ADDR, 0x09, 0x0D),
    }
}

/// The cell voltage of a MAX17048 for what its register holds: so many steps, in single
/// precision.
pub open spec fn max17048_voltage(raw: int) -> int {
    figures::nearest_float(raw * MAX17048_STEP_Q37, 1, SINGLE_LIMIT as int)
}

/// A number of millivolts in volts, in single precision.
pub open spec fn millivolts(mv: int) -> int {
    figures::nearest_float(mv * VOLT_Q37, 1000, SINGLE_LIMIT as int)
}

/// Decode the cell voltage of a MAX17048 into units of 2^-37 volts.
pub fn decode_max17048_vcell(vcell: [u8; 2]) -> (r: u64)
    ensures
        r == max17048_voltage(vcell[0] * 256 + vcell[1]),
        r < 11 * VOLT_Q37,
{
    let raw: u128 = vcell[0] as u128 * 256 + vcell[1] as u128;
    figures::round_to_float(raw * MAX17048_STEP_Q37, 1, SINGLE_LIMIT) as u64
}

/// Decode the charge of a MAX17048 into 256ths of a percent.
pub fn decode_max17048_soc(soc: [u8; 2]) -> (r: u32)
    ensures
        r == soc[0] * 256 + soc[1],
{
    soc[0] as u32 * 256 + soc[1] as u32
}

/// Decode the cell voltage of an LC709203 into millivolts.
pub fn decode_lc709203_voltage_mv(vcell: [u8; 2]) -> (r: u32)
    ensures
        r == vcell[0] + vcell[1] * 256,
{
    vcell[0] as u32 + vcell[1] as u32 * 256
}

/// Decode the charge of an LC709203 into percent.
pub fn decode_lc709203_percent(rsoc: [u8; 2]) -> (r: u32)
    ensures
        r == rsoc[0] + rsoc[1] * 256,
{
    rsoc[0] as u32 + rsoc[1] as u32 * 256
}

/// What a gauge reads, for what its registers hold.
pub open spec fn reading(monitor: BatteryMonitor, vcell: Seq<u8>, charge: Seq<u8>) -> (int, int) {
    match monitor {
        BatteryMonitor::Max17048 => (
            max17048_voltage(vcell[0] * 256 + vcell[1]),
            charge[0] * 256 + charge[1],
        ),
        BatteryMonitor::Lc709203 => (
            millivolts(vcell[0] + vcell[1] * 256),
            (charge[0] + charge[1] * 256) * 256,
        ),
    }
}

/// Decode what the registers of a gauge hold.
pub fn read_battery(monitor: BatteryMonitor, vcell: [u8; 2], charge: [u8; 2]) -> (r:
    BatterySnapshot)
    ensures
        (r.voltage_q37 as int, r.percent_256 as int) == reading(monitor, vcell@, charge@),
{
    match monitor {
        BatteryMonitor::Max17048 => BatterySnapshot {
            voltage_q37: decode_max17048_vcell(vcell),
            percent_256: decode_max17048_soc(charge),
        },
        BatteryMonitor::Lc709203 => BatterySnapshot {
            voltage_q37: figures::round_to_float(
                decode_lc709203_voltage_mv(vcell) as u128 * VOLT_Q37,
                1000,
                SINGLE_LIMIT,
            ) as u64,
            percent_256: decode_lc709203_percent(charge) * 256,
        },
    }
}

/// Decide which gauge is there, from which of them answers. The MAX17048 is tried
/// first.
pub fn detect_monitor(max17048_answers: bool, lc709203_answers: bool) -> (r: Option<
    BatteryMonitor,
>)
    ensures
        r == if max17048_answers {
            Some(BatteryMonitor::Max17048)
        } else if lc709203_answers {
            Some(BatteryMonitor::Lc709203)
        } else {
            None
        },
{
    if max17048_answers {
        Some(BatteryMonitor::Max17048)
    } else if lc709203_answers {
        Some(BatteryMonitor::Lc709203)
    } else {
        None
    }
}

impl BatteryDevice {
    /// Sum up which gauge answers.
    pub fn detect(max17048_answers: bool, lc709203_answers: bool) -> (r: Self)
        ensures
            r.monitor is None <==> !max17048_answers && !lc709203_answers,
            max17048_answers ==> r.monitor == Some(BatteryMonitor::Max17048),
            !max17048_answers && lc709203_answers ==> r.monitor == Some(BatteryMonitor::Lc709203),
    {
        BatteryDevice { monitor: detect_monitor(max17048_answers, lc709203_answers) }
    }
}

/// Readings are below 66 volts, and a MAX17048 below full charge reads less than
/// 25 600 256ths of a percent.
pub proof fn law_readings_are_bounded(monitor: BatteryMonitor, vcell: Seq<u8>, charge: Seq<u8>)
    ensures
        0 <= reading(monitor, vcell, charge).0 < 66 * VOLT_Q37,
        monitor == BatteryMonitor::Max17048 && charge[0] < 100 ==> reading(
            monitor,
            vcell,
            charge,
        ).1 < 25_600,
{
    figures::lemma_nearest_float(
        (vcell[0] * 256 + vcell[1]) * MAX17048_STEP_Q37,
        1,
        SINGLE_LIMIT as int,
    );
    figures::lemma_nearest_float(
        (vcell[0] + vcell[1] * 256) * VOLT_Q37,
        1000,
        SINGLE_LIMIT as int,
    );
}

/// Single precision is enough: the voltage of a MAX17048 is off by less than a
/// microvolt from so many steps of 78.125 microvolts, and that of an LC709203 by less
/// than four from so many millivolts.
pub proof fn law_voltage_is_close(raw: int)
    requires
        0 <= raw <= 0xFFFF,
    ensures
        -12_800 * VOLT_Q37 < 1_000_000 * (12_800 * max17048_voltage(raw) - raw * VOLT_Q37) < 12_800
            * VOLT_Q37,
        -4_000 * VOLT_Q37 < 1_000_000 * (1_000 * millivolts(raw) - raw * VOLT_Q37) < 4_000
            * VOLT_Q37,
{
    figures::lemma_nearest_float(raw * MAX17048_STEP_Q37, 1, SINGLE_LIMIT as int);
    figures::lemma_nearest_float(raw * VOLT_Q37, 1000, SINGLE_LIMIT as int);
}

/// A MAX17048 is at address 0x36, with voltage in register 2 and charge in register 4,
/// both with the high byte first. An LC709203 is at address 0x0B, with voltage in register
/// 9 and charge in register 13, both with the low byte first.
pub proof fn law_gauges_differ(vcell: Seq<u8>, charge: Seq<u8>)
    ensures
        registers_of(BatteryMonitor::Max17048) == (0x36u8, 0x02u8, 0x04u8),
        registers_of(BatteryMonitor::Lc709203) == (0x0Bu8, 0x09u8, 0x0Du8),
        reading(BatteryMonitor::Max17048, vcell, charge) == (
            max17048_voltage(256 * vcell[0] + vcell[1]),
            256 * charge[0] + charge[1],
        ),
        reading(BatteryMonitor::Lc709203, vcell, charge) == (
            millivolts(256 * vcell[1] + vcell[0]),
            256 * (256 * charge[1] + charge[0]),
        ),
{
}

/// Voltages are those of the gauge but for one part in 2^24: so many steps of the single
/// that is nearest to 78.125 microvolts, and so many millivolts.
pub proof fn law_voltage_in_single_precision(raw: int)
    requires
        0 <= raw <= 0xFFFF,
    ensures
        ({
            let steps = 10_737_418 * raw;
            let off = max17048_voltage(raw) - steps;
            &&& -steps <= 0x100_0000 * off <= steps
        }),
        ({
            let volts = 0x20_0000_0000 * raw;
            let off = 1000 * millivolts(raw) - volts;
            &&& -volts <= 0x100_0000 * off <= volts
        }),
{
    let n = 10_737_418 * raw;
    figures::lemma_nearest_float(n, 1, SINGLE_LIMIT as int);
    assert(n / 1 == n);
    let m = 0x20_0000_0000 * raw;
    figures::lemma_nearest_float(m, 1000, SINGLE_LIMIT as int);
    if raw == 0 {
        assert(max17048_voltage(0) == 0);
        assert(millivolts(0) == 0);
    } else {
        assert(m / 1000 >= 0x100_0000);
    }
}

} // verus!
