//! Post-processing of a record before it leaves the library: the dpad
//! override and the snap deadzone.
use vstd::prelude::*;

use crate::config::Config;
use crate::types::{Axis, AxisType, ButtonType, DeviceInputs, Hat};

verus! {

/// The snapped position of an axis at `n / d` under threshold `tn / td`, as
/// `(numerator, denominator)`: its distance from the center, scaled to
/// `[0, 1]`, is `|2n - d| / d`; above the threshold the axis moves to the edge
/// on its side (`0` at or below the center), else to the center.
pub open spec fn snapped(n: nat, d: nat, tn: nat, td: nat) -> (nat, nat) {
    let dist: int = if 2 * n > d {
        2 * n - d
    } else {
        d - 2 * n
    };
    if dist * td > tn * d {
        if 2 * n > d {
            (1, 1)
        } else {
            (0, 1)
        }
    } else {
        (1, 2)
    }
}

/// Snaps one axis to the center or to an edge.
pub fn snap_axis(axis: Axis, threshold: Axis) -> (r: Axis)
    ensures
        r.numer() == snapped(axis.numer(), axis.denom(), threshold.numer(), threshold.denom()).0,
        r.denom() == snapped(axis.numer(), axis.denom(), threshold.numer(), threshold.denom()).1,
{
    let (n, d) = axis.get();
    let (tn, td) = threshold.get();
    let n2 = 2 * (n as u64);
    let dist: u64 = if n2 > d as u64 {
        n2 - d as u64
    } else {
        d as u64 - n2
    };
    let a = dist as u128;
    let b = td as u128;
    let c = tn as u128;
    let e = d as u128;
    assert(a * b < 0x1_0000_0000_0000_0000_0000) by (nonlinear_arith)
        requires
            a < 0x2_0000_0000,
            b < 0x1_0000_0000,
    ;
    assert(c * e < 0x1_0000_0000_0000_0000) by (nonlinear_arith)
        requires
            c < 0x1_0000_0000,
            e < 0x1_0000_0000,
    ;
    if a * b > c * e {
        if n2 > d as u64 {
            Axis::from_ratio(1, 1)
        } else {
            Axis::from_ratio(0, 1)
        }
    } else {
        Axis::center()
    }
}

/// Applies the enabled hooks to a record: with the dpad override, a
/// non-neutral hat centers both left-stick axes; then, with the deadzone
/// enabled, each left-stick axis is snapped by the threshold. Everything else
/// is kept.
#[verifier::rlimit(40)]
pub fn mangle_inputs(inputs: &mut DeviceInputs, config: &Config)
    ensures
        ({
            let overridden = config.dpad_override && old(inputs).hat_dpad != Hat::Neutral;
            let x0 = if overridden { Axis::center_spec() } else { old(inputs).axis_left_stick_x };
            let y0 = if overridden { Axis::center_spec() } else { old(inputs).axis_left_stick_y };
            let snapping = config.deadzone is Some && config.deadzone->0.enabled;
            let t = config.deadzone->0.threshold;
            &&& snapping ==> final(inputs).axis_left_stick_x.numer() == snapped(x0.numer(), x0.denom(), t.numer(), t.denom()).0
                && final(inputs).axis_left_stick_x.denom() == snapped(x0.numer(), x0.denom(), t.numer(), t.denom()).1
                && final(inputs).axis_left_stick_y.numer() == snapped(y0.numer(), y0.denom(), t.numer(), t.denom()).0
                && final(inputs).axis_left_stick_y.denom() == snapped(y0.numer(), y0.denom(), t.numer(), t.denom()).1
            &&& !snapping ==> final(inputs).axis_left_stick_x == x0 && final(inputs).axis_left_stick_y == y0
        }),
        final(inputs).hat_dpad == old(inputs).hat_dpad,
        forall|t: ButtonType| #[trigger] final(inputs).button(t) == old(inputs).button(t),
        forall|t: AxisType|
            t != AxisType::LeftStickX && t != AxisType::LeftStickY ==> #[trigger] final(inputs).axis(t)
                == old(inputs).axis(t),
{
    if config.dpad_override {
        if inputs.hat_dpad != Hat::Neutral {
            inputs.set_axis(AxisType::LeftStickX, Axis::center());
            inputs.set_axis(AxisType::LeftStickY, Axis::center());
            proof {
                assert(inputs.axis(AxisType::LeftStickX) == Axis::center_spec());
            }
        }
    }
    if let Some(deadzone_config) = &config.deadzone {
        if deadzone_config.enabled {
            let x = snap_axis(inputs.axis_left_stick_x, deadzone_config.threshold);
            let y = snap_axis(inputs.axis_left_stick_y, deadzone_config.threshold);
            inputs.set_axis(AxisType::LeftStickX, x);
            inputs.set_axis(AxisType::LeftStickY, y);
            proof {
                assert(inputs.axis(AxisType::LeftStickX) == x);
                assert(inputs.axis(AxisType::LeftStickY) == y);
            }
        }
    }
    proof {
        assert(inputs.axis(AxisType::LeftStickX) == inputs.axis_left_stick_x);
        assert(inputs.axis(AxisType::LeftStickY) == inputs.axis_left_stick_y);
    }
}

} // verus!
