//! The display: pages, their lines, and where they stand on the panel.

use crate::battery::{BatterySnapshot, VOLT_Q37};
use crate::calendar;
use crate::figures;
use crate::gps::{self, GpsSnapshot, ZoneSettings};
use crate::ntp::{self, DisciplineState, NtpSnapshot};
use crate::pins::{self, PinError, PinPool};
use crate::rtc::{self, RtcSnapshot};
use crate::storage::{self, StorageStatus};
use crate::text;
use crate::wifi::NetworkSnapshot;
use vstd::prelude::*;

verus! {

/// Chip select of the panel.
pub const CS_PIN: i32 = 7;

/// Data or command select of the panel.
pub const DC_PIN: i32 = 39;

/// Reset of the panel.
pub const RST_PIN: i32 = 40;

/// Backlight of the panel.
pub const BL_PIN: i32 = 45;

/// Power of the panel.
pub const POWER_PIN: i32 = 21;

/// The button.
pub const BUTTON_PIN: i32 = 0;

/// Clock of the panel in megahertz.
pub const SPI_BAUD_MHZ: u32 = 40;

/// Whether the display never blanks.
pub const DISPLAY_DEBUG_ALWAYS_ON: bool = false;

/// Whether the backlight is on when its pin is low.
pub const DISPLAY_BACKLIGHT_ACTIVE_LOW: bool = false;

/// Column of the panel at which the visible part begins.
pub const DISPLAY_X_OFFSET: i32 = 40;

/// Row of the panel at which the visible part begins.
pub const DISPLAY_Y_OFFSET: i32 = 52;

/// Width of the visible part.
pub const PANEL_WIDTH: u16 = 240;

/// Height of the visible part.
pub const PANEL_HEIGHT: u16 = 135;

/// Column at which lines begin.
pub const LINE_X: i32 = 4;

/// Row of the first line.
pub const FIRST_LINE_Y: i32 = 20;

/// Rows from one line to the next.
pub const LINE_HEIGHT: i32 = 21;

/// The pages, in the order in which the button turns them.
#[derive(Debug, Clone, Copy, PartialEq, Eq, Structural)]
pub enum Page {
    /// Date and time.
    Time,
    /// Position.
    Location,
    /// Memory and storage.
    Resources,
    /// Battery and real-time clock.
    Battery,
    /// NTP service.
    Ntp,
    /// Network.
    Network,
}

impl Page {
    /// The page that follows.
    pub open spec fn following(self) -> Page {
        match self {
            Page::Time => Page::Location,
            Page::Location => Page::Resources,
            Page::Resources => Page::Battery,
            Page::Battery => Page::Ntp,
            Page::Ntp => Page::Network,
            Page::Network => Page::Time,
        }
    }

    /// Turn to the next page.
    pub fn next(self) -> (r: Self)
        ensures
            r == self.following(),
    {
        match self {
            Page::Time => Page::Location,
            Page::Location => Page::Resources,
            Page::Resources => Page::Battery,
            Page::Battery => Page::Ntp,
            Page::Ntp => Page::Network,
            Page::Network => Page::Time,
        }
    }
}

/// The page that follows after a number of turns.
pub open spec fn turned(page: Page, turns: nat) -> Page
    decreases turns,
{
    if turns == 0 {
        page
    } else {
        turned(page, (turns - 1) as nat).following()
    }
}

/// The visible part of the panel.
#[derive(Debug, Clone, Copy, PartialEq, Eq, Structural)]
pub struct OffsetDisplay {
    /// Column of the panel at which it begins.
    pub x_off: u16,
    /// Row of the panel at which it begins.
    pub y_off: u16,
    /// Its width.
    pub width: u16,
    /// Its height.
    pub height: u16,
}

impl OffsetDisplay {
    /// Whether a point lies in the visible part.
    pub open spec fn shows(self, x: i32, y: i32) -> bool {
        0 <= x < self.width && 0 <= y < self.height
    }

    /// A part of the panel.
    pub fn new(x_off: u16, y_off: u16, width: u16, height: u16) -> (r: Self)
        ensures
            r == (OffsetDisplay { x_off, y_off, width, height }),
    {
        OffsetDisplay { x_off, y_off, width, height }
    }

    /// The size of the visible part: width and height.
    pub fn size(&self) -> (r: (u32, u32))
        ensures
            r == (self.width as u32, self.height as u32),
    {
        (self.width as u32, self.height as u32)
    }

    /// Find the place of a point on the panel; `None` if it is not in the visible part.
    pub fn map_point(&self, x: i32, y: i32) -> (r: Option<(i32, i32)>)
        ensures
            r == if self.shows(x, y) {
                Some(((x + self.x_off) as i32, (y + self.y_off) as i32))
            } else {
                None
            },
    {
        if x < 0 || y < 0 || x >= self.width as i32 || y >= self.height as i32 {
            None
        } else {
            Some((x + self.x_off as i32, y + self.y_off as i32))
        }
    }
}

/// The part of the panel that can be seen on this board.
pub fn make_panel() -> (r: OffsetDisplay)
    ensures
        r.x_off == DISPLAY_X_OFFSET,
        r.y_off == DISPLAY_Y_OFFSET,
        r.width == PANEL_WIDTH,
        r.height == PANEL_HEIGHT,
{
    OffsetDisplay::new(DISPLAY_X_OFFSET as u16, DISPLAY_Y_OFFSET as u16, PANEL_WIDTH, PANEL_HEIGHT)
}

/// What the backlight is set to.
#[derive(Debug, Clone, Copy, PartialEq, Eq, Structural)]
pub enum Backlight {
    /// Pin high.
    On,
    /// Pin low.
    Off,
}

/// What to set the backlight to for a dark panel.
pub fn backlight_off_state() -> (r: Backlight)
    ensures
        r == if DISPLAY_BACKLIGHT_ACTIVE_LOW {
            Backlight::On
        } else {
            Backlight::Off
        },
{
    if DISPLAY_BACKLIGHT_ACTIVE_LOW {
        Backlight::On
    } else {
        Backlight::Off
    }
}

/// What to set the backlight to for a lit panel.
pub fn backlight_on_state() -> (r: Backlight)
    ensures
        r == if DISPLAY_BACKLIGHT_ACTIVE_LOW {
            Backlight::Off
        } else {
            Backlight::On
        },
{
    if DISPLAY_BACKLIGHT_ACTIVE_LOW {
        Backlight::Off
    } else {
        Backlight::On
    }
}

/// The row of a line.
pub fn line_y(index: u16) -> (r: i32)
    ensures
        r == FIRST_LINE_Y + LINE_HEIGHT * index,
{
    FIRST_LINE_Y + LINE_HEIGHT * index as i32
}

/// The owner under which the display takes its pins.
pub const MODULE: &'static str = "display";

/// The display as far as its pins go.
#[derive(Debug, Clone, Copy, PartialEq, Eq, Structural)]
pub struct DisplayDevice {
    /// Whether the pins of the panel were taken.
    pub panel_claimed: bool,
}

/// The pins of the bus and the power, in the order in which they are taken.
pub open spec fn bus_pins() -> Seq<i32> {
    seq![
        POWER_PIN,
        storage::FEATHER_SPI_SCK_PIN,
        storage::FEATHER_SPI_MOSI_PIN,
        storage::FEATHER_SPI_MISO_PIN,
    ]
}

/// The pins of the panel, in the order in which they are taken.
pub open spec fn panel_pins() -> Seq<i32> {
    seq![CS_PIN, DC_PIN, RST_PIN, BL_PIN, BUTTON_PIN]
}

/// Whether a pin belongs to the bus or the power.
pub open spec fn is_bus_pin(pin: int) -> bool {
    pin == POWER_PIN || pin == storage::FEATHER_SPI_SCK_PIN || pin == storage::FEATHER_SPI_MOSI_PIN
        || pin == storage::FEATHER_SPI_MISO_PIN
}

/// Whether a pin belongs to the panel.
pub open spec fn is_panel_pin(pin: int) -> bool {
    pin == CS_PIN || pin == DC_PIN || pin == RST_PIN || pin == BL_PIN || pin == BUTTON_PIN
}

impl DisplayDevice {
    /// Take the pins of the bus and the power.
    pub fn init(pool: &mut PinPool) -> (r: Result<Self, PinError>)
        requires
            old(pool).wf(),
        ensures
            final(pool).wf(),
            ({
                let taken = pins::take_row(
                    old(pool).owners(),
                    old(pool).available(),
                    bus_pins(),
                    MODULE,
                );
                &&& final(pool).owners() == taken.1
                &&& final(pool).available() == taken.2
                &&& match taken.0 {
                    Some(e) => r == Err::<DisplayDevice, PinError>(e),
                    None => r == Ok::<DisplayDevice, PinError>(
                        DisplayDevice { panel_claimed: false },
                    ),
                }
            }),
    {
        proof {
            reveal_with_fuel(pins::take_row, 5);
            let p = bus_pins();
            assert(p.skip(1).skip(1) == p.skip(2));
            assert(p.skip(2).skip(1) == p.skip(3));
            assert(p.skip(3).skip(1) == p.skip(4));
        }
        if let Err(e) = pool.take_gpio21(MODULE) {
            return Err(e);
        }
        if let Err(e) = pool.take_gpio36(MODULE) {
            return Err(e);
        }
        if let Err(e) = pool.take_gpio35(MODULE) {
            return Err(e);
        }
        if let Err(e) = pool.take_gpio37(MODULE) {
            return Err(e);
        }
        Ok(DisplayDevice { panel_claimed: false })
    }

    /// Take the pins of the panel.
    pub fn init_panel(&mut self, pool: &mut PinPool) -> (r: Result<(), PinError>)
        requires
            old(pool).wf(),
        ensures
            final(pool).wf(),
            ({
                let taken = pins::take_row(
                    old(pool).owners(),
                    old(pool).available(),
                    panel_pins(),
                    MODULE,
                );
                &&& final(pool).owners() == taken.1
                &&& final(pool).available() == taken.2
                &&& match taken.0 {
                    Some(e) => r == Err::<(), PinError>(e) && *final(self) == *old(self),
                    None => r is Ok && *final(self) == (DisplayDevice { panel_claimed: true }),
                }
            }),
    {
        proof {
            reveal_with_fuel(pins::take_row, 6);
            let p = panel_pins();
            assert(p.skip(1).skip(1) == p.skip(2));
            assert(p.skip(2).skip(1) == p.skip(3));
            assert(p.skip(3).skip(1) == p.skip(4));
            assert(p.skip(4).skip(1) == p.skip(5));
        }
        if let Err(e) = pool.take_gpio7(MODULE) {
            return Err(e);
        }
        if let Err(e) = pool.take_gpio39(MODULE) {
            return Err(e);
        }
        if let Err(e) = pool.take_gpio40(MODULE) {
            return Err(e);
        }
        if let Err(e) = pool.take_gpio45(MODULE) {
            return Err(e);
        }
        if let Err(e) = pool.take_gpio0(MODULE) {
            return Err(e);
        }
        self.panel_claimed = true;
        Ok(())
    }

    /// Release the pins that were taken.
    pub fn close(self, pool: &mut PinPool)
        requires
            old(pool).wf(),
        ensures
            final(pool).wf(),
            final(pool).available() == old(pool).available(),
            final(pool).owners() == Seq::new(
                pins::GPIO_COUNT as nat,
                |i: int|
                    if is_bus_pin(i) || (self.panel_claimed && is_panel_pin(i)) {
                        None
                    } else {
                        old(pool).owners()[i]
                    },
            ),
    {
        proof {
            pool.lemma_places();
        }
        let ghost before = pool.owners();
        if self.panel_claimed {
            pool.release(BUTTON_PIN);
            pool.release(CS_PIN);
            pool.release(DC_PIN);
            pool.release(RST_PIN);
            pool.release(BL_PIN);
        }
        pool.release(POWER_PIN);
        pool.release(storage::FEATHER_SPI_SCK_PIN);
        pool.release(storage::FEATHER_SPI_MOSI_PIN);
        pool.release(storage::FEATHER_SPI_MISO_PIN);
        assert forall|i: int| 0 <= i < pins::GPIO_COUNT implies pool.owners()[i] == (if is_bus_pin(i)
            || (self.panel_claimed && is_panel_pin(i)) {
            None
        } else {
            before[i]
        }) by {}
    }
}

/// Whether what GPS says is too little to show: it has no fix or no satellites.
pub open spec fn lacks_gps(gps: GpsSnapshot) -> bool {
    !gps.fix || gps.sats == 0
}

/// Tell whether to show the real-time clock in place of GPS.
pub fn gps_use_rtc_fallback(gps: &GpsSnapshot) -> (r: bool)
    ensures
        r == lacks_gps(*gps),
{
    !gps.fix || gps.sats == 0
}

/// The hours from UTC at which the time of the clock is shown while no time zone is in
/// use: those of the snapshot, but not less than none.
pub open spec fn hours_without_zone(tz_offset_hours: i8) -> int {
    ntp::larger(0, tz_offset_hours as int)
}

/// Whether local time can be told for an instant of the clock: it lies far enough
/// inside the calendar, or outside it.
pub open spec fn can_be_shown(utc: i64, tz_offset_hours: i8) -> bool {
    calendar::in_calendar(utc as int) ==> {
        &&& calendar::in_calendar(utc - calendar::DAY_SECONDS)
        &&& calendar::in_calendar(utc + calendar::DAY_SECONDS)
        &&& calendar::in_calendar(utc + hours_without_zone(tz_offset_hours) * 3600)
    }
}

/// Date and time of an instant of the clock as they are shown: in the time zone in use,
/// or else at the hours of the snapshot. `None` stands for an instant outside the
/// calendar.
pub open spec fn clock_texts(zones: &ZoneSettings, utc: i64, tz_offset_hours: i8) -> Option<
    (Seq<char>, Seq<char>),
> {
    if !calendar::in_calendar(utc as int) {
        None
    } else {
        match zones.active() {
            Some(name) => {
                let offset = calendar::zone_offset(name, utc as int);
                Some((gps::local_date_text(utc as int, offset), gps::local_time_text(
                    utc as int,
                    offset,
                )))
            },
            None => {
                let local = calendar::civil_at(utc + hours_without_zone(tz_offset_hours) * 3600);
                Some(
                    (
                        calendar::date_text(
                            calendar::plain_year_text(local.year as int),
                            local.month as int,
                            local.day as int,
                        ),
                        calendar::time_text(
                            local.hour as int,
                            local.minute as int,
                            local.second as int,
                        ),
                    ),
                )
            },
        }
    }
}

/// Write date and time of an instant of the clock.
pub fn clock_strings(zones: &ZoneSettings, utc: i64, tz_offset_hours: i8) -> (r: Option<
    (String, String),
>)
    requires
        can_be_shown(utc, tz_offset_hours),
    ensures
        r is Some <==> clock_texts(zones, utc, tz_offset_hours) is Some,
        r matches Some((date, time)) ==> clock_texts(zones, utc, tz_offset_hours) == Some(
            (date@, time@),
        ),
{
    if let Some(shown) = gps::local_from_utc_unix(zones, utc) {
        return Some(shown);
    }
    let zone_hours: i8 = gps::tz_offset_hours_at_unix(zones, utc);
    let hours: i8 = if zone_hours >= tz_offset_hours {
        zone_hours
    } else {
        tz_offset_hours
    };
    rtc::local_date_time_from_utc(utc, hours)
}

/// Time and date that the first pages show, with whether they come from the clock.
pub open spec fn shown_time(zones: &ZoneSettings, gps: GpsSnapshot, rtc: RtcSnapshot) -> (
    Seq<char>,
    Seq<char>,
    bool,
) {
    if !lacks_gps(gps) {
        (gps.local_time@, gps.local_date@, false)
    } else {
        match rtc.utc_unix_seconds {
            Some(utc) => match clock_texts(zones, utc, gps.tz_offset_hours) {
                Some((date, time)) => (time, date, true),
                None => ("n/a"@, "n/a"@, true),
            },
            None => ("n/a"@, "n/a"@, true),
        }
    }
}

/// Find time and date to show: those of GPS, or else those of the real-time clock.
pub fn display_time_source(zones: &ZoneSettings, gps: &GpsSnapshot, rtc: RtcSnapshot) -> (r: (
    String,
    String,
    bool,
))
    requires
        rtc.utc_unix_seconds matches Some(utc) ==> can_be_shown(utc, gps.tz_offset_hours),
    ensures
        (r.0@, r.1@, r.2) == shown_time(zones, *gps, rtc),
{
    if gps_use_rtc_fallback(gps) {
        if let Some(utc) = rtc.utc_unix_seconds {
            if let Some((date, time)) = clock_strings(zones, utc, gps.tz_offset_hours) {
                return (time, date, true);
            }
        }
        ("n/a".to_owned(), "n/a".to_owned(), true)
    } else {
        (text_copy(&gps.local_time), text_copy(&gps.local_date), false)
    }
}

/// Copy a string.
fn text_copy(s: &String) -> (r: String)
    ensures
        r@ == s@,
{
    let mut out = String::new();
    out.append(s.as_str());
    assert(out@ == s@);
    out
}

/// Time and date of the real-time clock as they are shown.
pub open spec fn shown_clock(zones: &ZoneSettings, rtc: RtcSnapshot, tz_offset_hours: i8) -> (
    Seq<char>,
    Seq<char>,
) {
    match rtc.utc_unix_seconds {
        Some(utc) if rtc.detected => match clock_texts(zones, utc, tz_offset_hours) {
            Some((date, time)) => (time, date),
            None => ("n/a"@, "n/a"@),
        },
        _ => ("n/a"@, "n/a"@),
    }
}

/// Write time and date of the real-time clock.
pub fn rtc_local_strings(zones: &ZoneSettings, rtc: RtcSnapshot, tz_offset_hours: i8) -> (r: (
    String,
    String,
))
    requires
        rtc.utc_unix_seconds matches Some(utc) ==> can_be_shown(utc, tz_offset_hours),
    ensures
        (r.0@, r.1@) == shown_clock(zones, rtc, tz_offset_hours),
{
    if rtc.detected {
        if let Some(utc) = rtc.utc_unix_seconds {
            if let Some((date, time)) = clock_strings(zones, utc, tz_offset_hours) {
                return (time, date);
            }
        }
    }
    ("n/a".to_owned(), "n/a".to_owned())
}

/// How far the last PPS interval is off a second.
pub open spec fn pps_text(pps_delta_us: u32) -> Seq<char> {
    let offset = pps_delta_us - 1_000_000;
    if pps_delta_us == 0 {
        "PPS: n/a"@
    } else {
        "PPS: "@ + (figures::sign(offset) + figures::duration(figures::size(offset)))
    }
}

/// Write how far the last PPS interval is off a second; 0 stands for no interval.
pub fn pps_offset_label(pps_delta_us: u32) -> (r: String)
    ensures
        r@ == pps_text(pps_delta_us),
{
    if pps_delta_us == 0 {
        "PPS: n/a".to_owned()
    } else {
        let mut out = "PPS: ".to_owned();
        let offset: i64 = pps_delta_us as i64 - 1_000_000;
        out.append(figures::format_signed_offset_us(offset).as_str());
        out
    }
}

/// Everything that the pages show.
pub struct ScreenData {
    /// What GPS says.
    pub gps: GpsSnapshot,
    /// Latitude in degrees with six decimals.
    pub lat: String,
    /// Longitude in degrees with six decimals.
    pub lon: String,
    /// Altitude in metres with one decimal, if it is known.
    pub altitude: Option<String>,
    /// The time zone in use.
    pub zones: ZoneSettings,
    /// What the battery gauge says.
    pub battery: BatterySnapshot,
    /// The last PPS interval in microseconds; 0 if there is none.
    pub pps_delta_us: u32,
    /// The state of the NTP service.
    pub ntp: NtpSnapshot,
    /// What is known of the card.
    pub storage: StorageStatus,
    /// The last sample of the real-time clock.
    pub rtc: RtcSnapshot,
    /// What is known of the network.
    pub network: NetworkSnapshot,
    /// Free memory in bytes.
    pub free_heap: u32,
    /// Least free memory since the start in bytes.
    pub min_heap: u32,
    /// Size in bytes of the partition that the program runs from.
    pub app_partition_bytes: u64,
}

/// What a row of strings says.
pub open spec fn lines_of(lines: Seq<String>) -> Seq<Seq<char>> {
    lines.map_values(|line: String| line@)
}

/// Write a line of two parts.
fn line(label: &str, value: &str) -> (r: String)
    ensures
        r@ == label@ + value@,
{
    let mut out = String::new();
    out.append(label);
    out.append(value);
    assert(out@ == label@ + value@);
    out
}

impl ScreenData {
    /// The time of the clock can be shown.
    pub open spec fn wf(&self) -> bool {
        self.rtc.utc_unix_seconds matches Some(utc) ==> can_be_shown(utc, self.gps.tz_offset_hours)
    }

    /// The page with date and time.
    pub open spec fn time_page(&self) -> Seq<Seq<char>> {
        let (time, date, from_clock) = shown_time(&self.zones, self.gps, self.rtc);
        let hours = self.gps.tz_offset_hours as int;
        seq!["Page 1/6  TIME"@] + (if from_clock {
            seq!["RTC fallback"@]
        } else {
            seq![]
        }) + seq![
            "Time:  "@ + time,
            "Date:  "@ + date,
            "TZ:    "@ + (figures::sign(hours) + text::dec(figures::size(hours))) + "h"@,
            pps_text(self.pps_delta_us),
        ]
    }

    /// Write the page with date and time.
    fn time_lines(&self) -> (r: Vec<String>)
        requires
            self.wf(),
        ensures
            lines_of(r@) == self.time_page(),
    {
        let (time, date, from_clock) = display_time_source(&self.zones, &self.gps, self.rtc);
        let mut lines: Vec<String> = Vec::new();
        lines.push("Page 1/6  TIME".to_owned());
        if from_clock {
            lines.push("RTC fallback".to_owned());
        }
        lines.push(line("Time:  ", time.as_str()));
        lines.push(line("Date:  ", date.as_str()));
        let mut tz = "TZ:    ".to_owned();
        figures::push_signed(&mut tz, self.gps.tz_offset_hours as i64);
        tz.append("h");
        lines.push(tz);
        lines.push(pps_offset_label(self.pps_delta_us));
        assert(lines_of(lines@) == self.time_page());
        lines
    }

    /// The page with the position; date and time in its place if there is none.
    pub open spec fn location_page(&self) -> Seq<Seq<char>> {
        let (time, date, _from_clock) = shown_time(&self.zones, self.gps, self.rtc);
        if lacks_gps(self.gps) {
            seq![
                "Page 2/6  LOCATION"@,
                "RTC fallback"@,
                "Time:  "@ + time,
                "Date:  "@ + date,
            ]
        } else {
            seq![
                "Page 2/6  LOCATION"@,
                "Lat: "@ + self.lat@,
                "Lon: "@ + self.lon@,
                match self.altitude {
                    Some(altitude) => "Alt: "@ + altitude@ + " m"@,
                    None => "Alt: n/a"@,
                },
                "Sats: "@ + text::dec(self.gps.sats as int),
            ]
        }
    }

    /// Write the page with the position.
    fn location_lines(&self) -> (r: Vec<String>)
        requires
            self.wf(),
        ensures
            lines_of(r@) == self.location_page(),
    {
        let mut lines: Vec<String> = Vec::new();
        lines.push("Page 2/6  LOCATION".to_owned());
        if gps_use_rtc_fallback(&self.gps) {
            let (time, date, _) = display_time_source(&self.zones, &self.gps, self.rtc);
            lines.push("RTC fallback".to_owned());
            lines.push(line("Time:  ", time.as_str()));
            lines.push(line("Date:  ", date.as_str()));
        } else {
            lines.push(line("Lat: ", self.lat.as_str()));
            lines.push(line("Lon: ", self.lon.as_str()));
            match &self.altitude {
                Some(altitude) => {
                    let mut alt = line("Alt: ", altitude.as_str());
                    alt.append(" m");
                    lines.push(alt);
                },
                None => lines.push("Alt: n/a".to_owned()),
            }
            let mut sats = "Sats: ".to_owned();
            text::push_dec(&mut sats, self.gps.sats as u128);
            lines.push(sats);
        }
        assert(lines_of(lines@) == self.location_page());
        lines
    }

    /// The page with memory and storage.
    pub open spec fn resources_page(&self) -> Seq<Seq<char>> {
        seq!["Page 3/6  RESOURCES"@] + (if self.storage.mounted {
            seq![
                "SD free: "@ + figures::human_bytes(self.storage.free_bytes as int),
                "SD total: "@ + figures::human_bytes(self.storage.total_bytes as int),
            ]
        } else {
            seq![
                "SD: not mounted"@,
                "App part: "@ + figures::human_bytes(self.app_partition_bytes as int),
            ]
        }) + seq![
            "Heap free: "@ + figures::human_bytes(self.free_heap as int),
            "Heap min: "@ + figures::human_bytes(self.min_heap as int),
        ]
    }

    /// Write the page with memory and storage.
    fn resources_lines(&self) -> (r: Vec<String>)
        ensures
            lines_of(r@) == self.resources_page(),
    {
        let mut lines: Vec<String> = Vec::new();
        lines.push("Page 3/6  RESOURCES".to_owned());
        if self.storage.mounted {
            let free = figures::format_human_bytes(self.storage.free_bytes);
            let total = figures::format_human_bytes(self.storage.total_bytes);
            lines.push(line("SD free: ", free.as_str()));
            lines.push(line("SD total: ", total.as_str()));
        } else {
            let part = figures::format_human_bytes(self.app_partition_bytes);
            lines.push("SD: not mounted".to_owned());
            lines.push(line("App part: ", part.as_str()));
        }
        let free_heap = figures::format_human_bytes(self.free_heap as u64);
        let min_heap = figures::format_human_bytes(self.min_heap as u64);
        lines.push(line("Heap free: ", free_heap.as_str()));
        lines.push(line("Heap min: ", min_heap.as_str()));
        assert(lines_of(lines@) == self.resources_page());
        lines
    }

    /// The page with battery and real-time clock.
    pub open spec fn battery_page(&self) -> Seq<Seq<char>> {
        let (time, date) = shown_clock(&self.zones, self.rtc, self.gps.tz_offset_hours);
        seq![
            "Page 4/6  BATT & RTC"@,
            "Voltage: "@ + text::thousandths(
                figures::half_even(1000 * self.battery.voltage_q37, VOLT_Q37 as int),
            ) + " V"@,
            "Charge:  "@ + figures::tenths(
                figures::half_even(10 * self.battery.percent_256, 256),
            ) + " %"@,
            "Time:  "@ + time,
            "Date:  "@ + date,
        ]
    }

    /// Write the page with battery and real-time clock.
    fn battery_lines(&self) -> (r: Vec<String>)
        requires
            self.wf(),
        ensures
            lines_of(r@) == self.battery_page(),
    {
        let (time, date) = rtc_local_strings(&self.zones, self.rtc, self.gps.tz_offset_hours);
        let mut lines: Vec<String> = Vec::new();
        lines.push("Page 4/6  BATT & RTC".to_owned());
        let mut voltage = "Voltage: ".to_owned();
        text::push_thousandths(
            &mut voltage,
            figures::round_half_even(1000 * self.battery.voltage_q37 as u128, VOLT_Q37),
        );
        voltage.append(" V");
        lines.push(voltage);
        let mut charge = "Charge:  ".to_owned();
        figures::push_tenths(
            &mut charge,
            figures::round_half_even(10 * self.battery.percent_256 as u128, 256),
        );
        charge.append(" %");
        lines.push(charge);
        lines.push(line("Time:  ", time.as_str()));
        lines.push(line("Date:  ", date.as_str()));
        assert(lines_of(lines@) == self.battery_page());
        lines
    }

    /// A duration in picoseconds as whole microseconds, as large as fits.
    pub open spec fn shown_us(ps: int) -> int {
        ntp::smaller(ntp::rounded_us(ps), u32::MAX as int)
    }

    /// The page with the NTP service.
    pub open spec fn ntp_page(&self) -> Seq<Seq<char>> {
        let ntp = self.ntp;
        let state = match ntp.state {
            DisciplineState::Locked => "LOCKED"@,
            DisciplineState::Holdover => "HOLDOVER"@,
            DisciplineState::Unsync => "UNSYNC"@,
        };
        let proc_delay = if ntp.proc_delay_has_sample {
            figures::duration(ntp::larger(Self::shown_us(ntp.proc_delay_ps as int), 1))
        } else {
            "n/a"@
        };
        seq![
            "Page 5/6  NTP"@,
            "Str:"@ + text::dec(ntp.stratum as int) + " "@ + state,
            "Freq:"@ + (figures::sign(ntp.freq_ppb as int) + text::thousandths(
                figures::size(ntp.freq_ppb as int),
            )) + " ppm"@,
            "Jit:"@ + figures::duration(Self::shown_us(ntp.pps_jitter_ps as int)) + "  disp:"@
                + figures::tenths(figures::double_places(ntp.root_disp_us as int, 1000, 10)) + "ms"@,
            "Proc:"@ + proc_delay + "  srv:"@ + text::dec(ntp.served as int) + " ko:"@ + text::dec(
                ntp.rate_limited as int,
            ),
        ]
    }

    /// Round picoseconds to microseconds, as large as fits.
    fn round_us(ps: u128) -> (r: u32)
        ensures
            r == Self::shown_us(ps as int),
    {
        let us: u128 = ps / 1_000_000 + (if ps % 1_000_000 >= 500_000 {
            1
        } else {
            0
        });
        if us <= u32::MAX as u128 {
            us as u32
        } else {
            u32::MAX
        }
    }

    /// Write the page with the NTP service.
    fn ntp_lines(&self) -> (r: Vec<String>)
        ensures
            lines_of(r@) == self.ntp_page(),
    {
        let state = match self.ntp.state {
            DisciplineState::Locked => "LOCKED",
            DisciplineState::Holdover => "HOLDOVER",
            DisciplineState::Unsync => "UNSYNC",
        };
        let mut lines: Vec<String> = Vec::new();
        lines.push("Page 5/6  NTP".to_owned());
        let mut stratum = "Str:".to_owned();
        text::push_dec(&mut stratum, self.ntp.stratum as u128);
        stratum.append(" ");
        stratum.append(state);
        lines.push(stratum);
        let mut freq = "Freq:".to_owned();
        figures::push_signed_places(&mut freq, self.ntp.freq_ppb as i64);
        freq.append(" ppm");
        lines.push(freq);
        let jitter_us: u32 = Self::round_us(self.ntp.pps_jitter_ps as u128);
        let mut jitter = line("Jit:", figures::format_unsigned_us(jitter_us).as_str());
        jitter.append("  disp:");
        figures::push_milliseconds(&mut jitter, self.ntp.root_disp_us);
        jitter.append("ms");
        lines.push(jitter);
        let proc_delay = if self.ntp.proc_delay_has_sample {
            let us: u32 = Self::round_us(self.ntp.proc_delay_ps);
            figures::format_unsigned_us(
                if us >= 1 {
                    us
                } else {
                    1
                },
            )
        } else {
            "n/a".to_owned()
        };
        let mut served = line("Proc:", proc_delay.as_str());
        served.append("  srv:");
        text::push_dec(&mut served, self.ntp.served as u128);
        served.append(" ko:");
        text::push_dec(&mut served, self.ntp.rate_limited as u128);
        lines.push(served);
        assert(lines_of(lines@) == self.ntp_page());
        lines
    }

    /// The page with the network.
    pub open spec fn network_page(&self) -> Seq<Seq<char>> {
        seq![
            "Page 6/6  NETWORK"@,
            "IP:  "@ + self.network.ip@,
            "GW:  "@ + self.network.gateway@,
            "Host: "@ + self.network.hostname@,
            "SSID: "@ + self.network.ssid@,
        ]
    }

    /// Write the page with the network.
    fn network_lines(&self) -> (r: Vec<String>)
        ensures
            lines_of(r@) == self.network_page(),
    {
        let mut lines: Vec<String> = Vec::new();
        lines.push("Page 6/6  NETWORK".to_owned());
        lines.push(line("IP:  ", self.network.ip.as_str()));
        lines.push(line("GW:  ", self.network.gateway.as_str()));
        lines.push(line("Host: ", self.network.hostname.as_str()));
        lines.push(line("SSID: ", self.network.ssid.as_str()));
        assert(lines_of(lines@) == self.network_page());
        lines
    }

    /// The lines of a page.
    pub open spec fn page(&self, page: Page) -> Seq<Seq<char>> {
        match page {
            Page::Time => self.time_page(),
            Page::Location => self.location_page(),
            Page::Resources => self.resources_page(),
            Page::Battery => self.battery_page(),
            Page::Ntp => self.ntp_page(),
            Page::Network => self.network_page(),
        }
    }

    /// Write the lines of a page.
    pub fn draw_page(&self, page: Page) -> (r: Vec<String>)
        requires
            self.wf(),
        ensures
            lines_of(r@) == self.page(page),
            r@.len() <= 6,
    {
        let lines = match page {
            Page::Time => self.time_lines(),
            Page::Location => self.location_lines(),
            Page::Resources => self.resources_lines(),
            Page::Battery => self.battery_lines(),
            Page::Ntp => self.ntp_lines(),
            Page::Network => self.network_lines(),
        };
        assert(lines_of(lines@).len() <= 6);
        lines
    }
}

/// Six turns lead back to the page they began with.
pub proof fn law_pages_go_round(page: Page)
    ensures
        turned(page, 6) == page,
{
    reveal_with_fuel(turned, 7);
}

/// Every page is reached from every other within five turns.
pub proof fn law_every_page_is_reached(from: Page, to: Page)
    ensures
        exists|turns: nat| turns <= 5 && #[trigger] turned(from, turns) == to,
{
    reveal_with_fuel(turned, 6);
    assert(turned(from, 0) == to || turned(from, 1) == to || turned(from, 2) == to || turned(from, 3)
        == to || turned(from, 4) == to || turned(from, 5) == to);
}

/// No two points of the visible part share a place on the panel, and every place lies
/// in the rectangle of the visible part.
pub proof fn law_points_keep_apart(panel: OffsetDisplay, ax: i32, ay: i32, bx: i32, by: i32)
    requires
        panel.shows(ax, ay),
        panel.shows(bx, by),
        (ax + panel.x_off, ay + panel.y_off) == (bx + panel.x_off, by + panel.y_off),
    ensures
        (ax, ay) == (bx, by),
        panel.x_off <= ax + panel.x_off < panel.x_off + panel.width,
        panel.y_off <= ay + panel.y_off < panel.y_off + panel.height,
{
}

/// Every line of a page of at most six lines begins on the panel.
pub proof fn law_lines_fit_the_panel(index: int)
    requires
        0 <= index < 6,
    ensures
        0 <= FIRST_LINE_Y + LINE_HEIGHT * index < PANEL_HEIGHT,
{
}

/// On an untouched board the display gets all its pins, and only those have an owner
/// then: what [`DisplayDevice::close`] releases is what was taken.
pub proof fn law_display_takes_its_pins(owners: Seq<Option<&'static str>>, available: Seq<bool>)
    requires
        owners == Seq::new(pins::GPIO_COUNT as nat, |i: int| None::<&'static str>),
        available == Seq::new(pins::GPIO_COUNT as nat, |i: int| pins::on_board(i as i32)),
    ensures
        ({
            let bus = pins::take_row(owners, available, bus_pins(), MODULE);
            let panel = pins::take_row(bus.1, bus.2, panel_pins(), MODULE);
            &&& bus.0 is None
            &&& panel.0 is None
            &&& panel.1 == Seq::new(
                pins::GPIO_COUNT as nat,
                |i: int|
                    if is_bus_pin(i) || is_panel_pin(i) {
                        Some(MODULE)
                    } else {
                        None
                    },
            )
        }),
{
    reveal_with_fuel(pins::take_row, 6);
    let b = bus_pins();
    assert(b.skip(1).skip(1) == b.skip(2));
    assert(b.skip(2).skip(1) == b.skip(3));
    assert(b.skip(3).skip(1) == b.skip(4));
    let p = panel_pins();
    assert(p.skip(1).skip(1) == p.skip(2));
    assert(p.skip(2).skip(1) == p.skip(3));
    assert(p.skip(3).skip(1) == p.skip(4));
    assert(p.skip(4).skip(1) == p.skip(5));
    let bus = pins::take_row(owners, available, b, MODULE);
    assert(bus.0 is None);
    let panel = pins::take_row(bus.1, bus.2, p, MODULE);
    assert(panel.0 is None);
    assert(panel.1 =~= Seq::new(
        pins::GPIO_COUNT as nat,
        |i: int|
            if is_bus_pin(i) || is_panel_pin(i) {
                Some(MODULE)
            } else {
                None
            },
    ));
}

/// The pins of the display, in the order in which they are taken: power, clock and data
/// lines, then chip select, command line, reset, backlight and button.
pub proof fn law_pins_of_the_display(pin: int)
    ensures
        bus_pins() == seq![21i32, 36, 35, 37],
        panel_pins() == seq![7i32, 39, 40, 45, 0],
        is_bus_pin(pin) <==> pin == 21 || pin == 36 || pin == 35 || pin == 37,
        is_panel_pin(pin) <==> pin == 7 || pin == 39 || pin == 40 || pin == 45 || pin == 0,
{
}

/// Lines stand 21 rows apart from row 20 on, on a panel of 240 by 135 points that begins
/// at column 40 and row 52. The backlight is lit by a high pin.
pub proof fn law_layout(index: int, x: i32, y: i32)
    ensures
        FIRST_LINE_Y + LINE_HEIGHT * index == 20 + 21 * index,
        ({
            let panel = OffsetDisplay {
                x_off: DISPLAY_X_OFFSET as u16,
                y_off: DISPLAY_Y_OFFSET as u16,
                width: PANEL_WIDTH,
                height: PANEL_HEIGHT,
            };
            &&& panel.shows(x, y) <==> 0 <= x < 240 && 0 <= y < 135
            &&& x + panel.x_off == x + 40
            &&& y + panel.y_off == y + 52
        }),
        !DISPLAY_BACKLIGHT_ACTIVE_LOW,
{
}

/// The order of the pages: time, position, memory, battery, service, network.
pub proof fn law_order_of_the_pages()
    ensures
        turned(Page::Time, 1) == Page::Location,
        turned(Page::Time, 2) == Page::Resources,
        turned(Page::Time, 3) == Page::Battery,
        turned(Page::Time, 4) == Page::Ntp,
        turned(Page::Time, 5) == Page::Network,
{
    reveal_with_fuel(turned, 6);
}

/// With a fix and satellites time and date are those of the receiver. Without, they are
/// those of the clock, and unknown if the clock has none either.
pub proof fn law_where_the_time_comes_from(zones: &ZoneSettings, gps: GpsSnapshot, rtc: RtcSnapshot)
    ensures
        ({
            let (time, date, from_clock) = shown_time(zones, gps, rtc);
            &&& from_clock <==> !gps.fix || gps.sats == 0
            &&& gps.fix && gps.sats > 0 ==> time == gps.local_time@ && date == gps.local_date@
            &&& from_clock && rtc.utc_unix_seconds is None ==> time == "n/a"@ && date == "n/a"@
            &&& from_clock && rtc.utc_unix_seconds is Some ==> match clock_texts(
                zones,
                rtc.utc_unix_seconds->0,
                gps.tz_offset_hours,
            ) {
                Some((d, t)) => time == t && date == d,
                None => time == "n/a"@ && date == "n/a"@,
            }
        }),
{
}

/// The clock is shown if it was found and has a time.
pub proof fn law_when_the_clock_is_shown(zones: &ZoneSettings, rtc: RtcSnapshot, hours: i8)
    ensures
        ({
            let (time, date) = shown_clock(zones, rtc, hours);
            &&& !rtc.detected || rtc.utc_unix_seconds is None ==> time == "n/a"@ && date == "n/a"@
            &&& rtc.detected && rtc.utc_unix_seconds is Some ==> match clock_texts(
                zones,
                rtc.utc_unix_seconds->0,
                hours,
            ) {
                Some((d, t)) => time == t && date == d,
                None => time == "n/a"@ && date == "n/a"@,
            }
        }),
{
}

/// A time of the clock is shown in the time zone in use. Without one it is moved on by
/// the hours of the receiver, but never back.
pub proof fn law_zone_of_the_clock(zones: &ZoneSettings, utc: i64, hours: i8)
    requires
        can_be_shown(utc, hours),
        calendar::in_calendar(utc as int),
    ensures
        ({
            let ahead = if hours > 0 {
                3600 * hours
            } else {
                0
            };
            let offset = match zones.active() {
                Some(name) => calendar::zone_offset(name, utc as int),
                None => ahead,
            };
            let local = calendar::civil_at(utc + offset);
            &&& zones.active() is Some ==> clock_texts(zones, utc, hours) == Some(
                (
                    gps::local_date_text(utc as int, offset),
                    gps::local_time_text(utc as int, offset),
                ),
            )
            &&& zones.active() is None ==> clock_texts(zones, utc, hours) == Some(
                (
                    calendar::date_text(
                        calendar::plain_year_text(local.year as int),
                        local.month as int,
                        local.day as int,
                    ),
                    calendar::time_text(local.hour as int, local.minute as int, local.second as int),
                ),
            )
        }),
{
    let ahead = if hours > 0 {
        3600 * hours
    } else {
        0
    };
    assert(hours_without_zone(hours) * 3600 == ahead);
}

/// The line on the pulses is read back: its sign and its duration tell how far the last
/// interval is off a second.
pub proof fn law_interval_is_read_back(pps_delta_us: u32)
    ensures
        ({
            let s = pps_text(pps_delta_us);
            let us = figures::duration_us(s.skip(6))->0;
            &&& pps_delta_us == 0 <==> s == "PPS: n/a"@
            &&& pps_delta_us != 0 ==> s.take(5) == "PPS: "@ && figures::duration_us(
                s.skip(6),
            ) is Some
            &&& 0 < pps_delta_us < 1_000_000 ==> s[5] == '-' && us == 1_000_000 - pps_delta_us
            &&& pps_delta_us >= 1_000_000 ==> s[5] == '+' && us == pps_delta_us - 1_000_000
        }),
{
    reveal_strlit("PPS: n/a");
    reveal_strlit("PPS: ");
    let s = pps_text(pps_delta_us);
    let offset = pps_delta_us - 1_000_000;
    if pps_delta_us != 0 {
        figures::law_sign_and_size(offset);
        figures::law_duration_is_read_back(figures::size(offset));
        assert(s.take(5) =~= "PPS: "@);
        assert(s.skip(6) =~= figures::duration(figures::size(offset)));
        assert("PPS: n/a"@[5] == 'n');
        assert(s[5] == figures::sign(offset)[0]);
    }
}

impl ScreenData {
    /// Every page begins with its number and its name.
    pub proof fn law_titles(&self)
        ensures
            self.page(Page::Time)[0] == "Page 1/6  TIME"@,
            self.page(Page::Location)[0] == "Page 2/6  LOCATION"@,
            self.page(Page::Resources)[0] == "Page 3/6  RESOURCES"@,
            self.page(Page::Battery)[0] == "Page 4/6  BATT & RTC"@,
            self.page(Page::Ntp)[0] == "Page 5/6  NTP"@,
            self.page(Page::Network)[0] == "Page 6/6  NETWORK"@,
    {
    }

    /// The page with date and time says where they come from, and ends with time, date,
    /// hours from UTC and the line on the pulses.
    pub proof fn law_time_page(&self)
        ensures
            ({
                let page = self.page(Page::Time);
                let (time, date, from_clock) = shown_time(&self.zones, self.gps, self.rtc);
                let n = page.len() as int;
                let zone = page[n - 2];
                let hours = self.gps.tz_offset_hours;
                &&& n == if from_clock {
                    6int
                } else {
                    5
                }
                &&& from_clock ==> page[1] == "RTC fallback"@
                &&& page[n - 4] == "Time:  "@ + time
                &&& page[n - 3] == "Date:  "@ + date
                &&& zone.take(7) == "TZ:    "@
                &&& zone[7] == if hours < 0 {
                    '-'
                } else {
                    '+'
                }
                &&& text::unsigned_number(zone.subrange(8, zone.len() - 1), 128) == Some(
                    if hours < 0 {
                        -hours as int
                    } else {
                        hours as int
                    },
                )
                &&& zone.last() == 'h'
                &&& page[n - 1] == pps_text(self.pps_delta_us)
            }),
    {
        let page = self.page(Page::Time);
        let hours = self.gps.tz_offset_hours as int;
        let n = page.len() as int;
        let zone = page[n - 2];
        reveal_strlit("TZ:    ");
        reveal_strlit("h");
        figures::law_sign_and_size(hours);
        text::law_number_is_read_back(figures::size(hours), 128);
        text::law_decimal(figures::size(hours));
        assert(zone == "TZ:    "@ + (figures::sign(hours) + text::dec(figures::size(hours)))
            + "h"@);
        assert(zone.take(7) =~= "TZ:    "@);
        assert(zone.subrange(8, zone.len() - 1) =~= text::dec(figures::size(hours)));
    }

    /// The page with the position has latitude, longitude, altitude and satellites, and
    /// date and time of the clock in their place without a fix.
    pub proof fn law_location_page(&self)
        ensures
            ({
                let page = self.page(Page::Location);
                let (time, date, from_clock) = shown_time(&self.zones, self.gps, self.rtc);
                let sats = page[4];
                &&& from_clock ==> page.len() == 4 && page[1] == "RTC fallback"@ && page[2]
                    == "Time:  "@ + time && page[3] == "Date:  "@ + date
                &&& !from_clock ==> {
                    &&& page.len() == 5
                    &&& page[1] == "Lat: "@ + self.lat@
                    &&& page[2] == "Lon: "@ + self.lon@
                    &&& page[3] == match self.altitude {
                        Some(metres) => "Alt: "@ + metres@ + " m"@,
                        None => "Alt: n/a"@,
                    }
                    &&& sats.take(6) == "Sats: "@
                    &&& text::unsigned_number(sats.skip(6), u32::MAX as int) == Some(
                        self.gps.sats as int,
                    )
                }
            }),
    {
        let page = self.page(Page::Location);
        reveal_strlit("Sats: ");
        text::law_number_is_read_back(self.gps.sats as int, u32::MAX as int);
        if !lacks_gps(self.gps) {
            let sats = page[4];
            assert(sats == "Sats: "@ + text::dec(self.gps.sats as int));
            assert(sats.take(6) =~= "Sats: "@);
            assert(sats.skip(6) =~= text::dec(self.gps.sats as int));
        }
    }

    /// The page with memory and storage has the free space and the size of a mounted
    /// card, or else the size of the program's partition, and then the free memory and
    /// the least of it.
    pub proof fn law_resources_page(&self)
        ensures
            ({
                let page = self.page(Page::Resources);
                &&& page.len() == 5
                &&& self.storage.mounted ==> page[1] == "SD free: "@ + figures::human_bytes(
                    self.storage.free_bytes as int,
                ) && page[2] == "SD total: "@ + figures::human_bytes(self.storage.total_bytes as int)
                &&& !self.storage.mounted ==> page[1] == "SD: not mounted"@ && page[2]
                    == "App part: "@ + figures::human_bytes(self.app_partition_bytes as int)
                &&& page[3] == "Heap free: "@ + figures::human_bytes(self.free_heap as int)
                &&& page[4] == "Heap min: "@ + figures::human_bytes(self.min_heap as int)
            }),
    {
    }

    /// The page with the battery has its voltage to the nearest millivolt and its charge
    /// to the nearest tenth of a percent, and time and date of the clock.
    pub proof fn law_battery_page(&self)
        ensures
            ({
                let page = self.page(Page::Battery);
                let (time, date) = shown_clock(&self.zones, self.rtc, self.gps.tz_offset_hours);
                let (volts, charge) = (page[1], page[2]);
                let mv = text::decimal_thousandths(volts.subrange(9, volts.len() - 2));
                let tenths = figures::decimal_tenths(charge.subrange(9, charge.len() - 2));
                &&& page.len() == 5
                &&& volts.take(9) == "Voltage: "@
                &&& volts.skip(volts.len() - 2) == " V"@
                &&& mv is Some
                &&& -0x20_0000_0000 <= 2 * (mv->0 * 0x20_0000_0000 - 1000
                    * self.battery.voltage_q37) <= 0x20_0000_0000
                &&& charge.take(9) == "Charge:  "@
                &&& charge.skip(charge.len() - 2) == " %"@
                &&& tenths is Some
                &&& -256 <= 2 * (tenths->0 * 256 - 10 * self.battery.percent_256) <= 256
                &&& page[3] == "Time:  "@ + time
                &&& page[4] == "Date:  "@ + date
            }),
    {
        let page = self.page(Page::Battery);
        let (volts, charge) = (page[1], page[2]);
        let mv = figures::half_even(1000 * self.battery.voltage_q37, 0x20_0000_0000);
        let tenths = figures::half_even(10 * self.battery.percent_256, 256);
        figures::law_nearest_integer(1000 * self.battery.voltage_q37, 0x20_0000_0000);
        figures::law_nearest_integer(10 * self.battery.percent_256, 256);
        text::law_thousandths_are_read_back(mv);
        figures::law_tenths_are_read_back(tenths);
        reveal_strlit("Voltage: ");
        reveal_strlit("Charge:  ");
        reveal_strlit(" V");
        reveal_strlit(" %");
        assert(volts == "Voltage: "@ + text::thousandths(mv) + " V"@);
        assert(charge == "Charge:  "@ + figures::tenths(tenths) + " %"@);
        assert(volts.take(9) =~= "Voltage: "@);
        assert(volts.skip(volts.len() - 2) =~= " V"@);
        assert(volts.subrange(9, volts.len() - 2) =~= text::thousandths(mv));
        assert(charge.take(9) =~= "Charge:  "@);
        assert(charge.skip(charge.len() - 2) =~= " %"@);
        assert(charge.subrange(9, charge.len() - 2) =~= figures::tenths(tenths));
    }

    /// Picoseconds are shown as the nearest number of microseconds, as large as fits.
    pub proof fn law_shown_us(ps: int)
        requires
            0 <= ps,
        ensures
            ps <= 4_294_967_295_000_000 ==> -500_000 <= 1_000_000 * Self::shown_us(ps) - ps
                <= 500_000,
            ps > 4_294_967_295_000_000 ==> Self::shown_us(ps) == 4_294_967_295,
    {
    }

    /// The page with the NTP service has stratum and state, the frequency in parts per
    /// million, jitter and dispersion, and the delay with the counts of requests that
    /// were answered and turned away.
    pub proof fn law_ntp_page(&self)
        ensures
            ({
                let page = self.page(Page::Ntp);
                let ntp = self.ntp;
                let state = match ntp.state {
                    DisciplineState::Locked => "LOCKED"@,
                    DisciplineState::Holdover => "HOLDOVER"@,
                    DisciplineState::Unsync => "UNSYNC"@,
                };
                let freq = page[2];
                let delay = Self::shown_us(ntp.proc_delay_ps as int);
                &&& page.len() == 5
                &&& page[1] == "Str:"@ + text::dec(ntp.stratum as int) + " "@ + state
                &&& freq.take(5) == "Freq:"@
                &&& text::decimal_thousandths(freq.subrange(5, freq.len() - 4)) == Some(
                    ntp.freq_ppb as int,
                )
                &&& freq.skip(freq.len() - 4) == " ppm"@
                &&& page[3] == "Jit:"@ + figures::duration(Self::shown_us(ntp.pps_jitter_ps as int))
                    + "  disp:"@ + figures::tenths(
                    figures::double_places(ntp.root_disp_us as int, 1000, 10),
                ) + "ms"@
                &&& page[4] == "Proc:"@ + (if !ntp.proc_delay_has_sample {
                    "n/a"@
                } else if delay < 1 {
                    figures::duration(1)
                } else {
                    figures::duration(delay)
                }) + "  srv:"@ + text::dec(ntp.served as int) + " ko:"@ + text::dec(
                    ntp.rate_limited as int,
                )
            }),
    {
        let freq = self.page(Page::Ntp)[2];
        let n = self.ntp.freq_ppb as int;
        figures::law_sign_and_size(n);
        text::law_thousandths_are_read_back(n);
        text::law_thousandths_are_read_back(figures::size(n));
        reveal_strlit("Freq:");
        reveal_strlit(" ppm");
        reveal_strlit("+");
        reveal_strlit("-");
        assert(freq == "Freq:"@ + (figures::sign(n) + text::thousandths(figures::size(n)))
            + " ppm"@);
        assert(freq.take(5) =~= "Freq:"@);
        assert(freq.skip(freq.len() - 4) =~= " ppm"@);
        let shown = figures::sign(n) + text::thousandths(figures::size(n));
        assert(freq.subrange(5, freq.len() - 4) =~= shown);
        if n < 0 {
            assert(shown =~= text::signed_thousandths(n));
        } else {
            assert(shown =~= "+"@ + text::thousandths(n));
        }
    }

    /// The page with the network has own address, gateway, host name and network name.
    pub proof fn law_network_page(&self)
        ensures
            ({
                let page = self.page(Page::Network);
                &&& page.len() == 5
                &&& page[1] == "IP:  "@ + self.network.ip@
                &&& page[2] == "GW:  "@ + self.network.gateway@
                &&& page[3] == "Host: "@ + self.network.hostname@
                &&& page[4] == "SSID: "@ + self.network.ssid@
            }),
    {
    }
}

} // verus!
