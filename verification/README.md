# volume_knob

Firmware for an ESP32 with a round LCD that acts as a virtual volume display
for a Yamaha WXA-50 amplifier. Home Assistant publishes the amplifier's volume,
source and power state over MQTT; the device shows them as a ring, a percentage
and the source's name, and lights its backlight for a few seconds after each
change.

## Layout

- `src/` — the verified library (Verus):
  - `wxa50.rs` — the amplifier's state.
  - `binary32.rs` — the volume is reported as a binary32 number and kept as its
    encoding; comparisons, equality and rounding to a whole percentage are
    decided on the encoding and proved against the number it denotes.
  - `mqtt.rs` — how messages update the state, and the session task's
    decisions (connect, subscribe, listen, ping, reconnect).
  - `wifi.rs` — the WiFi status and statistics, the hardware-address text, and
    the link task's decisions.
  - `ui.rs` — what the display shows each round and how bright it is.
  - `bounded.rs`, `text.rs` — the outside operations the library relies on
    (`heapless` strings, UTF-8 decoding, string comparison), with their contracts.
- `tests/` — tests of the library, including comparisons with Rust's own float
  formatting and comparisons.
- `app/` — the firmware around the library: hardware set-up, the async tasks
  that perform the actions the library decides on, drawing, and reading the
  volume text as a float.
