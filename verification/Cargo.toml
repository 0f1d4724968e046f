[package]
name = "volume_knob"
version = "0.1.0"
edition = "2021"
publish = false

[dependencies]
heapless = "0.8.0"
defmt = "1.0.1"
embassy-executor = { version = "0.7.0", features = ["task-arena-size-32768"] }
embassy-futures = "0.1.1"
embassy-net = { version = "0.7.0", features = ["tcp", "udp", "dhcpv4", "dns", "medium-ethernet", "proto-ipv4"] }
embassy-sync = "0.6.2"
embassy-time = "0.4.0"
embedded-graphics = "0.8.1"
embedded-hal-bus = "0.3.0"
esp-alloc = "0.8.0"
esp-backtrace = { version = "0.16.0", features = ["esp32c6", "exception-handler", "panic-handler", "defmt"] }
esp-hal = { version = "1.0.0-beta.1", features = ["esp32c6", "unstable"] }
esp-hal-embassy = { version = "0.8.1", features = ["esp32c6"] }
esp-println = { version = "0.14.0", features = ["esp32c6", "defmt-espflash"] }
esp-wifi = { version = "0.14.1", features = ["esp32c6", "wifi"] }
mipidsi = "0.9.0"
rust-mqtt = { version = "0.3.0", default-features = false }
static_cell = "2.1.0"
u8g2-fonts = { version = "0.6.0", features = ["embedded_graphics_textstyle"] }
