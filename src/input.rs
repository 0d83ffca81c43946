//! Device identities and the events that the raw-input manager publishes.
use vstd::prelude::*;

use crate::types::DeviceInputs;

verus! {

/// A device category that the OS can be asked to report.
#[derive(Clone, Copy, Debug, PartialEq, Eq, Structural)]
pub enum RawInputDeviceType {
    Joystick,
    GamePad,
}

impl RawInputDeviceType {
    pub open spec fn hid_usage_spec(self) -> (u16, u16) {
        match self {
            RawInputDeviceType::Joystick => (0x01, 0x04),
            RawInputDeviceType::GamePad => (0x01, 0x05),
        }
    }

    /// The HID usage page and usage of the category.
    pub fn hid_usage(&self) -> (r: (u16, u16))
        ensures
            r == self.hid_usage_spec(),
    {
        match self {
            RawInputDeviceType::Joystick => (0x01, 0x04),
            RawInputDeviceType::GamePad => (0x01, 0x05),
        }
    }

    pub fn usage_page(&self) -> (r: u16)
        ensures
            r == self.hid_usage_spec().0,
    {
        self.hid_usage().0
    }

    pub fn usage(&self) -> (r: u16)
        ensures
            r == self.hid_usage_spec().1,
    {
        self.hid_usage().1
    }
}

/// The bits of an OS raw-input device handle.
#[derive(Clone, Copy, Debug, PartialEq, Eq, Hash, Structural)]
pub struct RawInputDeviceId(pub u64);

/// A fixed index, `0..4`, of the alternate gamepad subsystem.
#[derive(Clone, Copy, Debug, PartialEq, Eq, Hash, Structural)]
pub struct XInputDeviceId(pub usize);

/// The identity of a connected physical device. Equality is over the tag and
/// the payload, so the two kinds never collide.
#[derive(Clone, Copy, Debug, PartialEq, Eq, Hash, Structural)]
pub enum DeviceId {
    RawInput(RawInputDeviceId),
    XInput(XInputDeviceId),
}

/// An arriving device's identity and display name.
#[derive(Clone, Debug)]
pub struct DeviceDescription {
    pub device_id: DeviceId,
    pub device_name: String,
}

/// What the raw-input manager reports to the binding engine.
pub enum RawInputEvent {
    /// A device was connected; the record transport's read side comes with it.
    DeviceArrived(DeviceDescription, triple_buffer::Output<DeviceInputs>),
    /// A device was disconnected.
    DeviceRemoved(DeviceId),
}

impl RawInputEvent {
    /// The device that the event is about.
    pub open spec fn device(self) -> DeviceId {
        match self {
            RawInputEvent::DeviceArrived(d, _) => d.device_id,
            RawInputEvent::DeviceRemoved(id) => id,
        }
    }

    pub open spec fn is_arrival(self) -> bool {
        self is DeviceArrived
    }
}

} // verus!
