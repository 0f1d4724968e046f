//! The amplifier's reported state.
use vstd::prelude::*;

verus! {

/// Whether the amplifier is switched on.
#[derive(Debug, Clone, Copy, PartialEq, Eq, Structural)]
pub enum Power {
    On,
    Off,
}

/// The amplifier's selected source.
#[derive(Debug, Clone, Copy, PartialEq, Eq, Structural)]
pub enum Input {
    Optical,
    Wired,
    AirPlay,
    Unknown,
}

/// The latest known state of the amplifier.
///
/// `volume` holds the IEEE-754 binary32 encoding of the reported volume
/// (a percentage as published by Home Assistant).
#[derive(Debug, Clone, Copy, PartialEq, Eq, Structural)]
pub struct State {
    pub volume: u32,
    pub power: Power,
    pub input: Input,
}

impl State {
    /// The state assumed before any message arrives: volume 0.0, power off, input unknown.
    pub fn new() -> (s: State)
        ensures
            s.volume == 0,
            s.power == Power::Off,
            s.input == Input::Unknown,
    {
        State { volume: 0, power: Power::Off, input: Input::Unknown }
    }
}

} // verus!
