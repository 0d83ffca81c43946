//! The record for one state of an alternate-subsystem gamepad.
use vstd::prelude::*;

use crate::types::{Axis, DeviceInputs, Hat};

verus! {

/// A stick coordinate in `[-1, 1]`, held exactly as `num / den`; positive is
/// right (x) or up (y).
#[derive(Clone, Copy, Debug, PartialEq, Eq, Structural)]
pub struct StickCoord {
    pub num: i32,
    pub den: u32,
}

impl StickCoord {
    /// A positive denominator that fits an `i32`, and a value in `[-1, 1]`.
    pub open spec fn wf(self) -> bool {
        0 < self.den <= i32::MAX && -(self.den as int) <= self.num <= self.den
    }
}

/// One state of an alternate-subsystem gamepad, as the subsystem reports it.
#[derive(Clone, Copy, Debug, PartialEq, Eq, Structural)]
pub struct XInputReading {
    pub north: bool,
    pub east: bool,
    pub south: bool,
    pub west: bool,
    pub start: bool,
    pub select: bool,
    pub left_shoulder: bool,
    pub right_shoulder: bool,
    /// The left trigger is past the subsystem's threshold.
    pub left_trigger: bool,
    /// The right trigger is past the subsystem's threshold.
    pub right_trigger: bool,
    pub left_thumb: bool,
    pub right_thumb: bool,
    pub left_stick_x: StickCoord,
    pub left_stick_y: StickCoord,
    pub right_stick_x: StickCoord,
    pub right_stick_y: StickCoord,
    pub arrow_up: bool,
    pub arrow_down: bool,
    pub arrow_left: bool,
    pub arrow_right: bool,
}

impl XInputReading {
    /// Every stick coordinate is well formed.
    pub open spec fn wf(self) -> bool {
        &&& self.left_stick_x.wf()
        &&& self.left_stick_y.wf()
        &&& self.right_stick_x.wf()
        &&& self.right_stick_y.wf()
    }
}

/// The hat for a dpad step `(hx, hy)`, with `x` to the right and `y` down.
pub open spec fn hat_of_step(hx: int, hy: int) -> Hat {
    if hx < 0 {
        if hy < 0 {
            Hat::NorthWest
        } else if hy == 0 {
            Hat::West
        } else {
            Hat::SouthWest
        }
    } else if hx == 0 {
        if hy < 0 {
            Hat::North
        } else if hy == 0 {
            Hat::Neutral
        } else {
            Hat::South
        }
    } else {
        if hy < 0 {
            Hat::NorthEast
        } else if hy == 0 {
            Hat::East
        } else {
            Hat::SouthEast
        }
    }
}

/// `1` for a pressed arrow, `0` for a released one.
pub open spec fn step(b: bool) -> int {
    if b {
        1
    } else {
        0
    }
}

/// The hat that four dpad arrows give: opposite arrows cancel.
pub open spec fn hat_of_arrows(up: bool, down: bool, left: bool, right: bool) -> Hat {
    hat_of_step(step(right) - step(left), step(down) - step(up))
}

/// `c` moved from `[-1, 1]` to `[0, 1]`: `(c + 1) / 2`.
pub fn stick_to_axis(c: StickCoord) -> (r: Axis)
    requires
        c.wf(),
    ensures
        r.numer() == c.num + c.den,
        r.denom() == 2 * c.den,
{
    let num = (c.num as i64 + c.den as i64) as u32;
    let den = (2 * (c.den as u64)) as u32;
    Axis::from_ratio(num, den)
}

/// `c` moved from `[-1, 1]` to `[0, 1]` upside down: `(1 - c) / 2`.
pub fn stick_to_axis_inverted(c: StickCoord) -> (r: Axis)
    requires
        c.wf(),
    ensures
        r.numer() == c.den - c.num,
        r.denom() == 2 * c.den,
{
    let num = (c.den as i64 - c.num as i64) as u32;
    let den = (2 * (c.den as u64)) as u32;
    Axis::from_ratio(num, den)
}

/// The hat for the four dpad arrows.
pub fn hat_from_arrows(up: bool, down: bool, left: bool, right: bool) -> (r: Hat)
    ensures
        r == hat_of_arrows(up, down, left, right),
{
    let mut hat_x: i8 = 0;
    let mut hat_y: i8 = 0;
    if up {
        hat_y = hat_y - 1;
    }
    if down {
        hat_y = hat_y + 1;
    }
    if right {
        hat_x = hat_x + 1;
    }
    if left {
        hat_x = hat_x - 1;
    }
    if hat_x < 0 {
        if hat_y < 0 {
            Hat::NorthWest
        } else if hat_y == 0 {
            Hat::West
        } else {
            Hat::SouthWest
        }
    } else if hat_x == 0 {
        if hat_y < 0 {
            Hat::North
        } else if hat_y == 0 {
            Hat::Neutral
        } else {
            Hat::South
        }
    } else {
        if hat_y < 0 {
            Hat::NorthEast
        } else if hat_y == 0 {
            Hat::East
        } else {
            Hat::SouthEast
        }
    }
}

/// The record for one alternate-subsystem state: buttons one for one (the
/// triggers give L2 and R2), sticks moved to `[0, 1]` with y turned upside
/// down, and the hat from the dpad arrows. Home and trackpad stay released.
pub fn translate_xinput(reading: &XInputReading) -> (r: DeviceInputs)
    requires
        reading.wf(),
    ensures
        r.button_north.pressed() == reading.north,
        r.button_east.pressed() == reading.east,
        r.button_south.pressed() == reading.south,
        r.button_west.pressed() == reading.west,
        r.button_start.pressed() == reading.start,
        r.button_select.pressed() == reading.select,
        r.button_l1.pressed() == reading.left_shoulder,
        r.button_r1.pressed() == reading.right_shoulder,
        r.button_l2.pressed() == reading.left_trigger,
        r.button_r2.pressed() == reading.right_trigger,
        r.button_l3.pressed() == reading.left_thumb,
        r.button_r3.pressed() == reading.right_thumb,
        !r.button_home.pressed(),
        !r.button_trackpad.pressed(),
        r.axis_left_stick_x.numer() == reading.left_stick_x.num + reading.left_stick_x.den,
        r.axis_left_stick_x.denom() == 2 * reading.left_stick_x.den,
        r.axis_left_stick_y.numer() == reading.left_stick_y.den - reading.left_stick_y.num,
        r.axis_left_stick_y.denom() == 2 * reading.left_stick_y.den,
        r.axis_right_stick_x.numer() == reading.right_stick_x.num + reading.right_stick_x.den,
        r.axis_right_stick_x.denom() == 2 * reading.right_stick_x.den,
        r.axis_right_stick_y.numer() == reading.right_stick_y.den - reading.right_stick_y.num,
        r.axis_right_stick_y.denom() == 2 * reading.right_stick_y.den,
        r.axis_left_trigger == Axis::center_spec(),
        r.axis_right_trigger == Axis::center_spec(),
        r.hat_dpad == hat_of_arrows(reading.arrow_up, reading.arrow_down, reading.arrow_left, reading.arrow_right),
        r.axes_in_range(),
{
    let mut inputs = DeviceInputs::default();
    inputs.button_north.set_value(reading.north);
    inputs.button_east.set_value(reading.east);
    inputs.button_south.set_value(reading.south);
    inputs.button_west.set_value(reading.west);
    inputs.button_start.set_value(reading.start);
    inputs.button_select.set_value(reading.select);
    inputs.button_l1.set_value(reading.left_shoulder);
    inputs.button_r1.set_value(reading.right_shoulder);
    inputs.button_l2.set_value(reading.left_trigger);
    inputs.button_r2.set_value(reading.right_trigger);
    inputs.button_l3.set_value(reading.left_thumb);
    inputs.button_r3.set_value(reading.right_thumb);
    inputs.axis_left_stick_x = stick_to_axis(reading.left_stick_x);
    inputs.axis_left_stick_y = stick_to_axis_inverted(reading.left_stick_y);
    inputs.axis_right_stick_x = stick_to_axis(reading.right_stick_x);
    inputs.axis_right_stick_y = stick_to_axis_inverted(reading.right_stick_y);
    inputs.hat_dpad = hat_from_arrows(reading.arrow_up, reading.arrow_down, reading.arrow_left, reading.arrow_right);
    inputs.note_axes_in_range();
    inputs
}

} // verus!
