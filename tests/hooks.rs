use dhc::config::{Config, DeadzoneConfig, EmulationMode, LogLevel};
use dhc::hooks::{mangle_inputs, snap_axis};
use dhc::types::{Axis, AxisType, ButtonType, DeviceInputs, Hat, HatType};

fn value(a: Axis) -> f64 {
    let (n, d) = a.get();
    n as f64 / d as f64
}

fn config(dpad_override: bool, deadzone: Option<DeadzoneConfig>) -> Config {
    Config {
        console: false,
        log_level: LogLevel::Info,
        device_count: 2,
        mode: EmulationMode::DirectInput,
        dpad_override,
        deadzone,
    }
}

fn record(x: Axis, y: Axis, hat: Hat) -> DeviceInputs {
    let mut r = DeviceInputs::default();
    r.set_axis(AxisType::LeftStickX, x);
    r.set_axis(AxisType::LeftStickY, y);
    r.set_hat(hat);
    r
}

#[test]
fn dpad_override_centers_the_left_stick() {
    let mut r = record(Axis::from_ratio(4, 5), Axis::from_ratio(1, 5), Hat::NorthEast);
    mangle_inputs(&mut r, &config(true, None));
    assert_eq!(value(r.axis_left_stick_x), 0.5);
    assert_eq!(value(r.axis_left_stick_y), 0.5);
    assert_eq!(r.get_hat(HatType::DPad), Hat::NorthEast);
}

#[test]
fn dpad_override_leaves_a_neutral_hat_alone() {
    let mut r = record(Axis::from_ratio(4, 5), Axis::from_ratio(1, 5), Hat::Neutral);
    mangle_inputs(&mut r, &config(true, None));
    assert_eq!(value(r.axis_left_stick_x), 0.8);
    assert_eq!(value(r.axis_left_stick_y), 0.2);
}

#[test]
fn no_hook_leaves_the_record_alone() {
    let mut r = record(Axis::from_ratio(4, 5), Axis::from_ratio(1, 5), Hat::East);
    r.set_button(ButtonType::L1, true);
    let before = r;
    mangle_inputs(&mut r, &config(false, Some(DeadzoneConfig { enabled: false, threshold: Axis::from_ratio(1, 2) })));
    assert_eq!(r, before);
}

#[test]
fn deadzone_snaps_to_center_or_edge() {
    let dz = Some(DeadzoneConfig { enabled: true, threshold: Axis::from_ratio(1, 2) });
    let mut r = record(Axis::from_ratio(70, 100), Axis::from_ratio(1, 2), Hat::Neutral);
    mangle_inputs(&mut r, &config(false, dz));
    assert_eq!(value(r.axis_left_stick_x), 0.5);
    assert_eq!(value(r.axis_left_stick_y), 0.5);
    let mut r = record(Axis::from_ratio(80, 100), Axis::from_ratio(1, 2), Hat::Neutral);
    mangle_inputs(&mut r, &config(false, dz));
    assert_eq!(value(r.axis_left_stick_x), 1.0);
    assert_eq!(value(r.axis_left_stick_y), 0.5);
}

#[test]
fn deadzone_snaps_low_values_to_zero() {
    let t = Axis::from_ratio(1, 2);
    assert_eq!(value(snap_axis(Axis::from_ratio(1, 10), t)), 0.0);
    assert_eq!(value(snap_axis(Axis::from_ratio(3, 10), t)), 0.5);
    // Exactly at the threshold stays centered.
    assert_eq!(value(snap_axis(Axis::from_ratio(3, 4), t)), 0.5);
    assert_eq!(value(snap_axis(Axis::from_ratio(1, 4), t)), 0.5);
    // A zero threshold snaps anything off center.
    let zero = Axis::from_ratio(0, 1);
    assert_eq!(value(snap_axis(Axis::from_ratio(51, 100), zero)), 1.0);
    assert_eq!(value(snap_axis(Axis::from_ratio(1, 2), zero)), 0.5);
    assert_eq!(value(snap_axis(Axis::from_ratio(u32::MAX, u32::MAX), Axis::from_ratio(u32::MAX - 1, u32::MAX))), 1.0);
}

#[test]
fn dpad_override_then_deadzone_keeps_center() {
    let dz = Some(DeadzoneConfig { enabled: true, threshold: Axis::from_ratio(0, 1) });
    let mut r = record(Axis::from_ratio(1, 1), Axis::from_ratio(0, 1), Hat::South);
    mangle_inputs(&mut r, &config(true, dz));
    assert_eq!(value(r.axis_left_stick_x), 0.5);
    assert_eq!(value(r.axis_left_stick_y), 0.5);
}

#[test]
fn default_configuration() {
    let c = Config::default();
    assert!(c.console);
    assert_eq!(c.log_level, LogLevel::Info);
    assert_eq!(c.device_count, 2);
    assert_eq!(c.mode, EmulationMode::DirectInput);
    assert!(!c.dpad_override);
    let dz = c.deadzone.unwrap();
    assert!(!dz.enabled);
    assert_eq!(value(dz.threshold), 0.5);
}

#[test]
fn record_accessors() {
    let mut r = DeviceInputs::default();
    for t in [
        AxisType::LeftStickX,
        AxisType::LeftStickY,
        AxisType::RightStickX,
        AxisType::RightStickY,
        AxisType::LeftTrigger,
        AxisType::RightTrigger,
    ] {
        assert_eq!(value(r.get_axis(t)), 0.5);
    }
    r.set_axis(AxisType::RightTrigger, Axis::from_ratio(1, 1));
    assert_eq!(value(r.get_axis(AxisType::RightTrigger)), 1.0);
    assert_eq!(value(r.axis_right_trigger), 1.0);
    r.set_button(ButtonType::Home, true);
    r.set_button(ButtonType::R3, true);
    assert!(r.get_button(ButtonType::Home).get());
    r.reset_buttons();
    assert!(!r.get_button(ButtonType::Home).get());
    assert!(!r.get_button(ButtonType::R3).get());
    assert_eq!(value(r.get_axis(AxisType::RightTrigger)), 1.0);
}

#[test]
fn button_and_axis_cells() {
    let mut b = dhc::types::Button::default();
    assert!(!b.get());
    b.set();
    assert!(b.get());
    b.reset();
    assert!(!b.get());
    b.set_value(true);
    assert!(b.get());
    let mut a = Axis::center();
    assert_eq!(a.get(), (1, 2));
    a.set_value(0, 3);
    assert_eq!(value(a), 0.0);
}

#[test]
fn pressed_buttons_are_listed_in_display_order() {
    let mut r = DeviceInputs::default();
    assert!(r.button_labels().is_empty());
    r.set_button(ButtonType::Trackpad, true);
    r.set_button(ButtonType::North, true);
    r.set_button(ButtonType::Start, true);
    r.set_button(ButtonType::L2, true);
    assert_eq!(r.button_labels(), vec!["\u{25b3}", "Start", "L2", "Trackpad"]);
}
