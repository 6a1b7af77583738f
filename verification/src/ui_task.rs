//! The task that runs the display: when it samples, wakes, blanks and draws, and what
//! the main loop feeds it.

use crate::display::{Page, DISPLAY_DEBUG_ALWAYS_ON};
use crate::gps::GpsSnapshot;
use crate::ntp::NtpSnapshot;
use crate::rtc::RtcSnapshot;
use crate::storage::StorageStatus;
use vstd::prelude::*;

verus! {

/// Time between two samples of the battery.
pub const BATTERY_SAMPLE_US: i64 = 5_000_000;

/// Time between two samples of the real-time clock.
pub const RTC_SAMPLE_US: i64 = 1_000_000;

/// Time between two drawings of the same page.
pub const DRAW_INTERVAL_US: i64 = 5_000_000;

/// Time after the last press of the button at which the display blanks.
pub const SCREEN_BLANK_US: i64 = 15_000_000;

/// What the main loop and the task share.
pub struct UiFeed {
    /// What GPS says.
    pub gps: GpsSnapshot,
    /// The last PPS interval in microseconds; 0 if there is none.
    pub pps_delta_us: u32,
    /// The state of the NTP service.
    pub ntp: NtpSnapshot,
    /// The last sample of the real-time clock.
    pub rtc: RtcSnapshot,
    /// What is known of the card.
    pub storage: StorageStatus,
    /// The second to set the real-time clock to; 0 if there is none.
    pub rtc_write_pending: i64,
}

impl UiFeed {
    /// A feed that knows nothing but the state of the card.
    pub fn new(storage: StorageStatus) -> (r: Self)
        ensures
            r.storage == storage,
            r.gps.local_date@ == Seq::<char>::empty(),
            r.gps.local_time@ == Seq::<char>::empty(),
            r.gps.tz_offset_hours == 0,
            r.gps.utc_unix_seconds is None,
            r.gps.lat_bits == 0,
            r.gps.lon_bits == 0,
            !r.gps.fix,
            r.gps.sats == 0,
            r.gps.altitude_bits is None,
            r.pps_delta_us == 0,
            r.ntp == NtpSnapshot::initial(),
            r.rtc == (RtcSnapshot { detected: false, utc_unix_seconds: None }),
            r.rtc_write_pending == 0,
    {
        UiFeed {
            gps: GpsSnapshot::default(),
            pps_delta_us: 0,
            ntp: NtpSnapshot::default(),
            rtc: RtcSnapshot::default(),
            storage,
            rtc_write_pending: 0,
        }
    }

    /// Publish what GPS says.
    pub fn publish_gps(&mut self, gps: GpsSnapshot)
        ensures
            *final(self) == (UiFeed { gps, ..*old(self) }),
    {
        self.gps = gps;
    }

    /// Publish a PPS interval.
    pub fn publish_pps_delta(&mut self, delta_us: u32)
        ensures
            *final(self) == (UiFeed { pps_delta_us: delta_us, ..*old(self) }),
    {
        self.pps_delta_us = delta_us;
    }

    /// Publish the state of the NTP service.
    pub fn publish_ntp(&mut self, snap: NtpSnapshot)
        ensures
            *final(self) == (UiFeed { ntp: snap, ..*old(self) }),
    {
        self.ntp = snap;
    }

    /// Publish a sample of the real-time clock.
    pub fn publish_rtc(&mut self, snap: RtcSnapshot)
        ensures
            *final(self) == (UiFeed { rtc: snap, ..*old(self) }),
    {
        self.rtc = snap;
    }

    /// Publish what is known of the card.
    pub fn publish_storage(&mut self, status: StorageStatus)
        ensures
            *final(self) == (UiFeed { storage: status, ..*old(self) }),
    {
        self.storage = status;
    }

    /// Get the last sample of the real-time clock.
    pub fn rtc(&self) -> (r: RtcSnapshot)
        ensures
            r == self.rtc,
    {
        self.rtc
    }

    /// Get what is known of the card.
    pub fn storage(&self) -> (r: StorageStatus)
        ensures
            r == self.storage,
    {
        self.storage
    }

    /// Ask for the real-time clock to be set. An earlier second that has not been taken
    /// yet is replaced.
    pub fn request_rtc_write(&mut self, utc_unix_seconds: i64)
        ensures
            *final(self) == (UiFeed { rtc_write_pending: utc_unix_seconds, ..*old(self) }),
    {
        self.rtc_write_pending = utc_unix_seconds;
    }

    /// Take the second to set the real-time clock to, if there is one. Each is taken
    /// once.
    pub fn take_rtc_write(&mut self) -> (r: Option<i64>)
        ensures
            r == if old(self).rtc_write_pending > 0 {
                Some(old(self).rtc_write_pending)
            } else {
                None
            },
            *final(self) == (UiFeed { rtc_write_pending: 0, ..*old(self) }),
    {
        let pending: i64 = self.rtc_write_pending;
        self.rtc_write_pending = 0;
        if pending > 0 {
            Some(pending)
        } else {
            None
        }
    }
}

/// Sum up an attempt to read a real-time clock that is there.
pub fn rtc_sample(read: Option<i64>) -> (r: RtcSnapshot)
    ensures
        r == (RtcSnapshot { detected: true, utc_unix_seconds: read }),
{
    RtcSnapshot { detected: true, utc_unix_seconds: read }
}

/// Whether something that was last done at `last_us`, or never if that is 0, is to be
/// done again.
pub open spec fn is_due(last_us: i64, now_us: i64, interval_us: i64) -> bool {
    last_us == 0 || now_us - last_us >= interval_us
}

/// Tell whether something is to be done again.
pub fn due(last_us: i64, now_us: i64, interval_us: i64) -> (r: bool)
    ensures
        r == is_due(last_us, now_us, interval_us),
{
    last_us == 0 || now_us as i128 - last_us as i128 >= interval_us as i128
}

/// Which sensors to read.
#[derive(Debug, Clone, Copy, PartialEq, Eq, Structural)]
pub struct SensorActions {
    /// Read the battery gauge.
    pub battery: bool,
    /// Read the real-time clock.
    pub rtc: bool,
}

/// What to do with the display.
#[derive(Debug, Clone, Copy, PartialEq, Eq, Structural)]
pub struct ScreenActions {
    /// Light the panel.
    pub wake: bool,
    /// Darken the panel.
    pub blank: bool,
    /// Draw a page.
    pub draw: Option<Page>,
}

/// The state of the task.
#[derive(Debug, Clone, Copy, PartialEq, Eq, Structural)]
pub struct UiState {
    /// When the battery was last sampled; 0 if never.
    pub last_battery_us: i64,
    /// When the real-time clock was last sampled; 0 if never.
    pub last_rtc_us: i64,
    /// When a page was last drawn; 0 if never.
    pub last_draw_us: i64,
    /// When the button was last pressed, or the task started.
    pub last_interaction_us: i64,
    /// Whether the button was down when it was last looked at.
    pub last_button_pressed: bool,
    /// Whether the panel is lit.
    pub screen_on: bool,
    /// The page that is shown.
    pub page: Page,
    /// Whether the page is to be drawn at once.
    pub force_redraw: bool,
}

impl UiState {
    /// The state at the start: a lit panel with the first page to be drawn.
    pub fn new(now_us: i64) -> (r: Self)
        ensures
            r == (UiState {
                last_battery_us: 0,
                last_rtc_us: 0,
                last_draw_us: 0,
                last_interaction_us: now_us,
                last_button_pressed: false,
                screen_on: true,
                page: Page::Time,
                force_redraw: true,
            }),
    {
        UiState {
            last_battery_us: 0,
            last_rtc_us: 0,
            last_draw_us: 0,
            last_interaction_us: now_us,
            last_button_pressed: false,
            screen_on: true,
            page: Page::Time,
            force_redraw: true,
        }
    }

    /// Decide which sensors to read: the battery gauge every five seconds, and a
    /// real-time clock that is there every second.
    pub fn poll_sensors(&mut self, now_us: i64, rtc_present: bool) -> (r: SensorActions)
        ensures
            r.battery == is_due(old(self).last_battery_us, now_us, BATTERY_SAMPLE_US),
            r.rtc == (rtc_present && is_due(old(self).last_rtc_us, now_us, RTC_SAMPLE_US)),
            *final(self) == (UiState {
                last_battery_us: if r.battery {
                    now_us
                } else {
                    old(self).last_battery_us
                },
                last_rtc_us: if r.rtc {
                    now_us
                } else {
                    old(self).last_rtc_us
                },
                ..*old(self)
            }),
    {
        let battery: bool = due(self.last_battery_us, now_us, BATTERY_SAMPLE_US);
        if battery {
            self.last_battery_us = now_us;
        }
        let rtc: bool = rtc_present && due(self.last_rtc_us, now_us, RTC_SAMPLE_US);
        if rtc {
            self.last_rtc_us = now_us;
        }
        SensorActions { battery, rtc }
    }

    /// The state after the button was looked at: a press lights a dark panel and turns
    /// the page of a lit one.
    pub open spec fn after_button(self, now_us: i64, pressed: bool) -> UiState {
        if pressed && !self.last_button_pressed {
            UiState {
                screen_on: true,
                page: if self.screen_on {
                    self.page.following()
                } else {
                    self.page
                },
                last_interaction_us: now_us,
                force_redraw: true,
                last_button_pressed: pressed,
                ..self
            }
        } else {
            UiState { last_button_pressed: pressed, ..self }
        }
    }

    /// Whether a lit panel is to be darkened.
    pub open spec fn blanks(self, now_us: i64) -> bool {
        !DISPLAY_DEBUG_ALWAYS_ON && self.screen_on && now_us - self.last_interaction_us
            >= SCREEN_BLANK_US
    }

    /// The state after a panel that nobody uses was darkened.
    pub open spec fn after_blanking(self, now_us: i64) -> UiState {
        UiState { screen_on: self.screen_on && !self.blanks(now_us), ..self }
    }

    /// Whether the page is to be drawn.
    pub open spec fn draws(self, now_us: i64) -> bool {
        self.screen_on && (self.force_redraw || now_us - self.last_draw_us >= DRAW_INTERVAL_US)
    }

    /// The state after the page was drawn, if it was to be.
    pub open spec fn after_drawing(self, now_us: i64) -> UiState {
        if self.draws(now_us) {
            UiState { last_draw_us: now_us, force_redraw: false, ..self }
        } else {
            self
        }
    }

    /// Decide what to do with the display; `pressed` tells whether the button is down.
    pub fn poll_screen(&mut self, now_us: i64, pressed: bool) -> (r: ScreenActions)
        ensures
            ({
                let pushed = old(self).after_button(now_us, pressed);
                let blanked = pushed.after_blanking(now_us);
                &&& r.wake == (pushed.screen_on && !old(self).screen_on)
                &&& r.blank == pushed.blanks(now_us)
                &&& r.draw == if blanked.draws(now_us) {
                    Some(blanked.page)
                } else {
                    None
                }
                &&& *final(self) == blanked.after_drawing(now_us)
            }),
    {
        let mut wake: bool = false;
        if pressed && !self.last_button_pressed {
            if self.screen_on {
                self.page = self.page.next();
            } else {
                self.screen_on = true;
                wake = true;
            }
            self.last_interaction_us = now_us;
            self.force_redraw = true;
        }
        self.last_button_pressed = pressed;
        let blank: bool = !DISPLAY_DEBUG_ALWAYS_ON && self.screen_on && now_us as i128
            - self.last_interaction_us as i128 >= SCREEN_BLANK_US as i128;
        if blank {
            self.screen_on = false;
        }
        let draw: bool = self.screen_on && (self.force_redraw || now_us as i128
            - self.last_draw_us as i128 >= DRAW_INTERVAL_US as i128);
        let page = self.page;
        if draw {
            self.last_draw_us = now_us;
            self.force_redraw = false;
        }
        ScreenActions {
            wake,
            blank,
            draw: if draw {
                Some(page)
            } else {
                None
            },
        }
    }
}

/// A press on a dark panel lights it, keeps the page and draws it.
pub proof fn law_first_press_wakes(state: UiState, now_us: i64)
    requires
        !state.screen_on,
        !state.last_button_pressed,
    ensures
        ({
            let after = state.after_button(now_us, true).after_blanking(now_us);
            after.screen_on && after.page == state.page && after.draws(now_us)
        }),
{
}

/// A press on a lit panel turns the page and draws it.
pub proof fn law_next_press_turns_the_page(state: UiState, now_us: i64)
    requires
        state.screen_on,
        !state.last_button_pressed,
    ensures
        ({
            let after = state.after_button(now_us, true).after_blanking(now_us);
            after.screen_on && after.page == state.page.following() && after.draws(now_us)
        }),
{
}

/// A button that is held down counts as one press.
pub proof fn law_held_button_counts_once(state: UiState, first_us: i64, later_us: i64)
    ensures
        ({
            let once = state.after_button(first_us, true);
            once.after_button(later_us, true) == once
        }),
{
}

/// A lit panel goes dark when nobody presses the button for the blanking time, and a
/// dark one is not drawn on.
pub proof fn law_idle_panel_goes_dark(state: UiState, now_us: i64)
    requires
        state.screen_on,
        now_us - state.last_interaction_us >= SCREEN_BLANK_US,
    ensures
        ({
            let after = state.after_button(now_us, false).after_blanking(now_us);
            !after.screen_on && !after.draws(now_us)
        }),
{
}

/// Something is due if it was never done, or if the interval has passed since.
pub proof fn law_due(last_us: i64, now_us: i64, interval_us: i64)
    ensures
        is_due(last_us, now_us, interval_us) <==> last_us == 0 || now_us >= last_us + interval_us,
{
}

/// The battery is sampled every five seconds and the clock every second, a page is drawn
/// again after five seconds, and the panel goes dark fifteen after the last press.
pub proof fn law_times_of_the_task(state: UiState, now_us: i64)
    ensures
        is_due(state.last_battery_us, now_us, BATTERY_SAMPLE_US) <==> state.last_battery_us == 0
            || now_us - state.last_battery_us >= 5_000_000,
        is_due(state.last_rtc_us, now_us, RTC_SAMPLE_US) <==> state.last_rtc_us == 0 || now_us
            - state.last_rtc_us >= 1_000_000,
        state.draws(now_us) <==> state.screen_on && (state.force_redraw || now_us
            - state.last_draw_us >= 5_000_000),
        state.blanks(now_us) <==> state.screen_on && now_us - state.last_interaction_us
            >= 15_000_000,
        state.after_blanking(now_us).screen_on <==> state.screen_on && now_us
            - state.last_interaction_us < 15_000_000,
        state.after_blanking(now_us) == (UiState {
            screen_on: state.after_blanking(now_us).screen_on,
            ..state
        }),
{
}

/// Only a button that goes down counts: then the time is noted and the page drawn, and
/// otherwise nothing but the button is remembered.
pub proof fn law_presses_count(state: UiState, now_us: i64, pressed: bool)
    ensures
        ({
            let after = state.after_button(now_us, pressed);
            &&& after.last_button_pressed == pressed
            &&& pressed && !state.last_button_pressed ==> after.screen_on && after.force_redraw
                && after.last_interaction_us == now_us && (state.screen_on ==> after.page
                == state.page.following()) && (!state.screen_on ==> after.page == state.page)
            &&& !pressed || state.last_button_pressed ==> after == (UiState {
                last_button_pressed: pressed,
                ..state
            })
            &&& after.last_battery_us == state.last_battery_us
            &&& after.last_rtc_us == state.last_rtc_us
            &&& after.last_draw_us == state.last_draw_us
        }),
{
}

/// Drawing is noted with its time and is not asked for again.
pub proof fn law_drawing_is_noted(state: UiState, now_us: i64)
    ensures
        ({
            let after = state.after_drawing(now_us);
            &&& state.draws(now_us) ==> after == (UiState {
                last_draw_us: now_us,
                force_redraw: false,
                ..state
            })
            &&& !state.draws(now_us) ==> after == state
        }),
{
}

} // verus!
