//! Aggregation of physical game controllers into a fixed set of virtual
//! gamepad slots: HID report decoding, the raw-input manager's bookkeeping,
//! and the binding of slots to devices, newest device first.
use vstd::prelude::*;

pub mod config;
pub mod context;
pub mod hid;
pub mod hooks;
pub mod input;
pub mod manager;
pub mod transport;
pub mod types;
pub mod xinput;

pub use context::Context;
pub use types::{Axis, AxisType, Button, ButtonType, DeviceInputs, Hat, HatType};

verus! {

} // verus!
