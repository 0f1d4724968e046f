//! Verified core of a virtual volume knob for a Yamaha WXA-50 amplifier.

pub mod binary32;
pub mod bounded;
pub mod mqtt;
mod text;
pub mod ui;
pub mod wifi;
pub mod wxa50;
