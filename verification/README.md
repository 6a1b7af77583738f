# rust_gps_ntp

A stratum-1 NTP service for an ESP32 board with a GPS receiver. GPS names the
seconds and its PPS output marks where they begin; a real-time clock and the
oscillator bridge the gaps.

`src/` is the library, written and proved in Verus. It owns no socket and touches
no pin, and but for a reading of the wall clock every operation takes what it
needs and says what to do next.

| Module | What it holds |
| --- | --- |
| `ntp` | clock discipline, holdover, packets, control messages, rate limit, access list |
| `gps`, `timezone`, `calendar` | NMEA sentences, time zones, dates |
| `pps`, `rtc`, `battery`, `storage`, `wifi`, `pins` | what the parts of the board say and are told |
| `display`, `figures`, `ui_task` | pages, their figures, and when they are drawn |
| `service` | the decisions of the main loop |
| `config`, `logging`, `text` | settings, log levels, text |

Quantities are integers in units that hold them exactly: frequencies in parts
per billion, jitter and delays in picoseconds, voltages in units of 2^-37 volts.
Coordinates and altitudes are carried as the bits of single-precision numbers.

`app/` is the firmware around the library: drivers, sockets, threads and the
conversion of coordinates. `tests/` runs the library on a host.
