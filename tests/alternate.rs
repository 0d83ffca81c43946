use dhc::input::{DeviceId, RawInputDeviceId, RawInputDeviceType, RawInputEvent, XInputDeviceId};
use dhc::hid::{HidParser, ReportReadings, ValueCap, USAGE_X};
use dhc::manager::RawInputManager;
use dhc::types::{Axis, ButtonType, DeviceInputs, Hat};
use dhc::xinput::{hat_from_arrows, translate_xinput, StickCoord, XInputReading};

fn value(a: Axis) -> f64 {
    let (n, d) = a.get();
    n as f64 / d as f64
}

fn coord(num: i32, den: u32) -> StickCoord {
    StickCoord { num, den }
}

fn reading() -> XInputReading {
    XInputReading {
        north: false,
        east: false,
        south: false,
        west: false,
        start: false,
        select: false,
        left_shoulder: false,
        right_shoulder: false,
        left_trigger: false,
        right_trigger: false,
        left_thumb: false,
        right_thumb: false,
        left_stick_x: coord(0, 1),
        left_stick_y: coord(0, 1),
        right_stick_x: coord(0, 1),
        right_stick_y: coord(0, 1),
        arrow_up: false,
        arrow_down: false,
        arrow_left: false,
        arrow_right: false,
    }
}

fn view(events: &[RawInputEvent]) -> Vec<(DeviceId, bool)> {
    events
        .iter()
        .map(|e| match e {
            RawInputEvent::DeviceArrived(d, _) => (d.device_id, true),
            RawInputEvent::DeviceRemoved(id) => (*id, false),
        })
        .collect()
}

fn xi(i: usize) -> DeviceId {
    DeviceId::XInput(XInputDeviceId(i))
}

#[test]
fn sticks_move_to_unit_range_with_y_inverted() {
    let mut r = reading();
    r.left_stick_x = coord(1, 1);
    r.left_stick_y = coord(1, 1);
    r.right_stick_x = coord(-1, 2);
    r.right_stick_y = coord(-1, 2);
    let d = translate_xinput(&r);
    assert_eq!(value(d.axis_left_stick_x), 1.0);
    assert_eq!(value(d.axis_left_stick_y), 0.0);
    assert_eq!(value(d.axis_right_stick_x), 0.25);
    assert_eq!(value(d.axis_right_stick_y), 0.75);
    assert_eq!(value(d.axis_left_trigger), 0.5);
    let centered = translate_xinput(&reading());
    assert_eq!(centered, DeviceInputs::default());
}

#[test]
fn buttons_map_one_for_one() {
    let mut r = reading();
    r.north = true;
    r.left_trigger = true;
    r.right_thumb = true;
    r.select = true;
    let d = translate_xinput(&r);
    assert!(d.get_button(ButtonType::North).get());
    assert!(d.get_button(ButtonType::L2).get());
    assert!(d.get_button(ButtonType::R3).get());
    assert!(d.get_button(ButtonType::Select).get());
    assert!(!d.get_button(ButtonType::South).get());
    assert!(!d.get_button(ButtonType::Home).get());
}

#[test]
fn arrows_combine_into_hat() {
    assert_eq!(hat_from_arrows(false, false, false, false), Hat::Neutral);
    assert_eq!(hat_from_arrows(true, false, false, false), Hat::North);
    assert_eq!(hat_from_arrows(true, false, false, true), Hat::NorthEast);
    assert_eq!(hat_from_arrows(false, false, false, true), Hat::East);
    assert_eq!(hat_from_arrows(false, true, false, true), Hat::SouthEast);
    assert_eq!(hat_from_arrows(false, true, false, false), Hat::South);
    assert_eq!(hat_from_arrows(false, true, true, false), Hat::SouthWest);
    assert_eq!(hat_from_arrows(false, false, true, false), Hat::West);
    assert_eq!(hat_from_arrows(true, false, true, false), Hat::NorthWest);
    assert_eq!(hat_from_arrows(true, true, true, true), Hat::Neutral);
    let mut r = reading();
    r.arrow_up = true;
    r.arrow_left = true;
    assert_eq!(translate_xinput(&r).hat_dpad, Hat::NorthWest);
}

#[test]
fn device_categories_have_hid_usages() {
    assert_eq!(RawInputDeviceType::Joystick.hid_usage(), (0x01, 0x04));
    assert_eq!(RawInputDeviceType::GamePad.hid_usage(), (0x01, 0x05));
    assert_eq!(RawInputDeviceType::GamePad.usage_page(), 0x01);
    assert_eq!(RawInputDeviceType::GamePad.usage(), 0x05);
}

#[test]
fn raw_arrival_and_removal_produce_events() {
    let mut m = RawInputManager::new();
    let id = RawInputDeviceId(0x1234);
    let parser = HidParser::new(14, vec![ValueCap { usage_page: 1, usage: USAGE_X, logical_min: 0, logical_max: 4 }]);
    assert!(!m.handle_device_arrival(id, Some((parser, "pad".to_string()))));
    assert!(!m.handle_device_arrival(RawInputDeviceId(5), None));
    assert!(m.parser(id).is_some());
    assert!(m.parser(RawInputDeviceId(5)).is_none());
    let events = m.take_events();
    assert_eq!(view(&events), vec![(DeviceId::RawInput(id), true)]);
    assert!(m.take_events().is_empty());
    assert!(!m.handle_device_removal(id));
    assert!(!m.handle_device_removal(id));
    assert_eq!(view(&m.take_events()), vec![(DeviceId::RawInput(id), false)]);
}

#[test]
fn input_is_published_to_the_arrived_transport() {
    let mut m = RawInputManager::new();
    let id = RawInputDeviceId(9);
    let parser = HidParser::new(14, vec![ValueCap { usage_page: 1, usage: USAGE_X, logical_min: 0, logical_max: 4 }]);
    m.handle_device_arrival(id, Some((parser, "pad".to_string())));
    let mut events = m.take_events();
    let mut read = match events.remove(0) {
        RawInputEvent::DeviceArrived(_, read) => read,
        RawInputEvent::DeviceRemoved(_) => panic!("expected an arrival"),
    };
    assert_eq!(*read.read(), DeviceInputs::default());
    let reports = vec![ReportReadings { buttons: Ok(vec![4, 0]), values: vec![Ok(1)] }];
    assert!(!m.handle_device_input(id, &reports));
    let got = *read.read();
    assert!(got.button_north.get());
    assert_eq!(value(got.axis_left_stick_x), 0.25);
    // Readings that do not fit the capabilities are dropped.
    let wrong = vec![ReportReadings { buttons: Ok(vec![]), values: vec![] }];
    assert!(!m.handle_device_input(id, &wrong));
    assert!(read.read().button_north.get());
    assert!(!m.handle_device_input(RawInputDeviceId(77), &reports));
}

#[test]
fn alternate_subsystem_devices_come_through_scans() {
    let mut m = RawInputManager::new();
    let id = RawInputDeviceId(3);
    assert!(m.handle_device_arrival(id, Some((HidParser::new_xinput(vec![]), "xbox".to_string()))));
    assert!(m.take_events().is_empty());
    assert!(m.handle_device_input(id, &vec![]));
    let mut pressed = DeviceInputs::default();
    pressed.set_button(ButtonType::East, true);
    m.scan_xinput(&vec![None, Some(pressed), None, Some(DeviceInputs::default())]);
    let mut events = m.take_events();
    assert_eq!(view(&events), vec![(xi(1), true), (xi(3), true)]);
    let mut read1 = match events.remove(0) {
        RawInputEvent::DeviceArrived(_, read) => read,
        RawInputEvent::DeviceRemoved(_) => panic!("expected an arrival"),
    };
    assert!(read1.read().button_east.get());
    assert_eq!(m.xinput_device_ids(), vec![XInputDeviceId(1), XInputDeviceId(3)]);
    assert!(!m.read_xinput(&vec![Some(DeviceInputs::default()), Some(pressed)]));
    assert!(!read1.read().button_east.get());
    assert!(m.read_xinput(&vec![None, Some(pressed)]));
    m.scan_xinput(&vec![Some(pressed), None, None, Some(pressed)]);
    assert_eq!(view(&m.take_events()), vec![(xi(1), false), (xi(0), true)]);
    assert!(m.handle_device_removal(id));
    assert!(m.take_events().is_empty());
}
