//! Settings that the library reads: slot count, emulation mode, log level and
//! the post-processing hooks. Loading them from a file is the caller's work.
use vstd::prelude::*;

use crate::types::Axis;

verus! {

/// The public identity of the emulated gamepad.
#[derive(Clone, Copy, Debug, PartialEq, Eq, Structural)]
pub enum EmulationMode {
    DirectInput,
    XInput,
}

/// The verbosity threshold of logging.
#[derive(Clone, Copy, Debug, PartialEq, Eq, Structural)]
pub enum LogLevel {
    Trace,
    Debug,
    Info,
    Warn,
    Error,
    Fatal,
}

/// The snap deadzone of the left stick: `threshold` is a magnitude in `[0, 1]`.
#[derive(Clone, Copy, Debug, PartialEq, Eq)]
pub struct DeadzoneConfig {
    pub enabled: bool,
    pub threshold: Axis,
}

/// All settings.
#[derive(Clone, Copy, Debug, PartialEq, Eq)]
pub struct Config {
    pub console: bool,
    pub log_level: LogLevel,
    pub device_count: usize,
    pub mode: EmulationMode,
    pub dpad_override: bool,
    pub deadzone: Option<DeadzoneConfig>,
}

impl Default for Config {
    /// Info logging to a console, two slots, DirectInput identity, no dpad
    /// override, and a disabled deadzone with threshold `1/2`.
    fn default() -> (r: Config)
        ensures
            r.console,
            r.log_level == LogLevel::Info,
            r.device_count == 2,
            r.mode == EmulationMode::DirectInput,
            !r.dpad_override,
            r.deadzone is Some,
            !r.deadzone->0.enabled,
            r.deadzone->0.threshold.numer() == 1,
            r.deadzone->0.threshold.denom() == 2,
    {
        Config {
            console: true,
            log_level: LogLevel::Info,
            device_count: 2,
            mode: EmulationMode::DirectInput,
            dpad_override: false,
            deadzone: Some(DeadzoneConfig { enabled: false, threshold: Axis::from_ratio(1, 2) }),
        }
    }
}

} // verus!
