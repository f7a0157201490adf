//! Configuration of the GPIO pins, as handed over at startup.

use vstd::prelude::*;

verus! {

/// How one pin is wired and what it is used for.
#[derive(Clone, Copy, Debug)]
pub struct GpioPinConfig {
    /// Index of the chip that carries the line.
    pub chip: u8,
    /// Offset of the line on its chip.
    pub offset: u8,
    pub direction: GpioPinDirection,
    /// Drive mode; push-pull where none is given.
    pub drive: Option<GpioPinDrive>,
    /// Level that an output starts with; low where none is given.
    pub initial_level: Option<GpioPinLevel>,
    pub function: GpioPinFunction,
}

#[derive(Clone, Copy, Debug, PartialEq, Eq, Structural)]
pub enum GpioPinDirection {
    In,
    Out,
}

#[derive(Clone, Copy, Debug, PartialEq, Eq, Structural)]
pub enum GpioPinDrive {
    PushPull,
    OpenDrain,
}

#[derive(Clone, Copy, Debug, PartialEq, Eq, Structural)]
pub enum GpioPinLevel {
    High,
    Low,
}

/// The role of a pin: it either resets an external device or blinks as a
/// sign of life.
#[derive(Clone, Copy, Debug, PartialEq, Eq, Structural)]
pub enum GpioPinFunction {
    ExtReset,
    LivenessBlink,
}

impl Default for GpioPinFunction {
    /// A pin whose role is not given resets an external device.
    fn default() -> (function: Self)
        ensures
            function == GpioPinFunction::ExtReset,
    {
        GpioPinFunction::ExtReset
    }
}

/// One entry of the pin table: the pin's name and its configuration, or no
/// configuration where the entry could not be read.
#[derive(Debug)]
pub struct GpioPinEntry {
    pub name: String,
    pub config: Option<GpioPinConfig>,
}

/// The pin table, in the order in which the lines are to be acquired.
#[derive(Debug)]
pub struct GpioConfig {
    pub pins: Vec<GpioPinEntry>,
}

/// Everything that is configured at startup.
#[derive(Debug)]
pub struct InitConfig {
    pub gpio: Option<GpioConfig>,
}

impl Default for InitConfig {
    /// No GPIO at all.
    fn default() -> (config: Self)
        ensures
            config.gpio is None,
    {
        InitConfig { gpio: None }
    }
}

} // verus!
