[package]
name = "fsw"
version = "0.1.0"
edition = "2021"
publish = false

[dependencies]
chrono = "0.4"
serialport = { version = "4", default-features = false }
libm = "0.2"
heapless = "0.8"
embedded-hal = "1"
embedded-hal-async = "1"
embassy-time = "*"
embassy-sync = "*"
log = "0.4"
fixed = "1"
static_cell = "2"
ublox = "*"
bmp390-rs = "*"
