[package]
name = "rust_gps_ntp"
version = "0.1.0"
edition = "2021"
publish = false

[dependencies]
anyhow = "1"
chrono = { version = "0.4", default-features = false, features = ["std"] }
chrono-tz = "0.10"
log = "0.4"
portable-atomic = "1"
display-interface = "0.4"
display-interface-spi = "0.4"
embedded-graphics = "0.7"
embedded-hal = "0.2"
embedded-svc = "0.28"
esp-idf-svc = "0.51"
st7789 = "0.7"
