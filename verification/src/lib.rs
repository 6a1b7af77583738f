//! A GPS-disciplined stratum-1 NTP service.

pub mod battery;
pub mod calendar;
pub mod config;
pub mod display;
pub mod figures;
pub mod gps;
pub mod logging;
pub mod ntp;
pub mod pins;
pub mod pps;
pub mod rtc;
pub mod service;
pub mod storage;
pub mod text;
pub mod timezone;
pub mod ui_task;
pub mod wifi;
