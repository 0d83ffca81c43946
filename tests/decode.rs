use dhc::hid::{
    decode_reports, hat_from_value, hidp_result, is_xinput_device_path, unlerp, DeviceType, HidPError, HidParser,
    ReportReadings, ValueCap, HIDP_STATUS_BUFFER_TOO_SMALL, HIDP_STATUS_NOT_IMPLEMENTED, HIDP_STATUS_NULL,
    HIDP_STATUS_SUCCESS, HIDP_STATUS_USAGE_NOT_FOUND, USAGE_HAT, USAGE_RX, USAGE_RY, USAGE_RZ, USAGE_X, USAGE_Y,
    USAGE_Z,
};
use dhc::types::{Axis, ButtonType, DeviceInputs, Hat};

fn value(a: Axis) -> f64 {
    let (n, d) = a.get();
    n as f64 / d as f64
}

fn cap(usage: u16, min: i32, max: i32) -> ValueCap {
    ValueCap { usage_page: 1, usage, logical_min: min, logical_max: max }
}

fn readings(buttons: Vec<u16>, values: Vec<i32>) -> ReportReadings {
    ReportReadings { buttons: Ok(buttons), values: values.into_iter().map(Ok).collect() }
}

fn ps4(caps: Vec<ValueCap>) -> HidParser {
    HidParser::new(14, caps)
}

#[test]
fn left_stick_x_is_the_position_within_the_logical_range() {
    let parser = ps4(vec![cap(USAGE_X, 0, 255)]);
    let r = parser.parse(&readings(vec![], vec![51])).unwrap();
    assert_eq!(r.axis_left_stick_x.get(), (51, 255));
    assert!((value(r.axis_left_stick_x) - 0.2).abs() < 1e-9);
    let r = parser.parse(&readings(vec![], vec![0])).unwrap();
    assert_eq!(value(r.axis_left_stick_x), 0.0);
    let r = parser.parse(&readings(vec![], vec![255])).unwrap();
    assert_eq!(value(r.axis_left_stick_x), 1.0);
}

#[test]
fn signed_logical_range_decodes() {
    let parser = ps4(vec![cap(USAGE_X, -128, 127)]);
    let r = parser.parse(&readings(vec![], vec![-128 + 85])).unwrap();
    assert_eq!(r.axis_left_stick_x.get(), (85, 255));
}

#[test]
fn out_of_range_values_clamp() {
    assert_eq!(value(unlerp(-5, 0, 255)), 0.0);
    assert_eq!(value(unlerp(300, 0, 255)), 1.0);
    assert_eq!(value(unlerp(7, 10, 10)), 0.0);
    assert_eq!(value(unlerp(i32::MAX - 1, i32::MIN, i32::MAX)), (u32::MAX - 1) as f64 / u32::MAX as f64);
}

#[test]
fn usages_route_to_axes() {
    let parser = ps4(vec![
        cap(USAGE_X, 0, 4),
        cap(USAGE_Y, 0, 4),
        cap(USAGE_Z, 0, 4),
        cap(USAGE_RX, 0, 4),
        cap(USAGE_RY, 0, 4),
        cap(0x40, 0, 4),
    ]);
    let r = parser.parse(&readings(vec![], vec![1, 2, 3, 4, 0, 2])).unwrap();
    assert_eq!(value(r.axis_left_stick_x), 0.25);
    assert_eq!(value(r.axis_left_stick_y), 0.5);
    assert_eq!(value(r.axis_right_stick_x), 0.75);
    assert_eq!(value(r.axis_left_trigger), 1.0);
    assert_eq!(value(r.axis_right_trigger), 0.0);
    assert_eq!(value(r.axis_right_stick_y), 0.5);
}

#[test]
fn rz_drives_left_stick_y_and_the_last_capability_wins() {
    let parser = ps4(vec![cap(USAGE_Y, 0, 4), cap(USAGE_RZ, 0, 4)]);
    let r = parser.parse(&readings(vec![], vec![1, 3])).unwrap();
    assert_eq!(value(r.axis_left_stick_y), 0.75);
    assert_eq!(value(r.axis_right_stick_y), 0.5);
}

#[test]
fn hat_values_decode_in_compass_order() {
    let expected = [
        Hat::North,
        Hat::NorthEast,
        Hat::East,
        Hat::SouthEast,
        Hat::South,
        Hat::SouthWest,
        Hat::West,
        Hat::NorthWest,
    ];
    for (v, h) in expected.iter().enumerate() {
        assert_eq!(hat_from_value(v as i32), *h);
    }
    assert_eq!(hat_from_value(8), Hat::Neutral);
    assert_eq!(hat_from_value(15), Hat::Neutral);
    assert_eq!(hat_from_value(-1), Hat::Neutral);
    let parser = ps4(vec![cap(USAGE_HAT, 0, 7)]);
    let r = parser.parse(&readings(vec![], vec![1])).unwrap();
    assert_eq!(r.hat_dpad, Hat::NorthEast);
    let r = parser.parse(&readings(vec![], vec![8])).unwrap();
    assert_eq!(r.hat_dpad, Hat::Neutral);
}

#[test]
fn button_usages_map_to_canonical_buttons() {
    let parser = ps4(vec![]);
    let order = [
        ButtonType::West,
        ButtonType::South,
        ButtonType::East,
        ButtonType::North,
        ButtonType::L1,
        ButtonType::R1,
        ButtonType::L2,
        ButtonType::R2,
        ButtonType::Select,
        ButtonType::Start,
        ButtonType::L3,
        ButtonType::R3,
        ButtonType::Home,
        ButtonType::Trackpad,
    ];
    for (i, t) in order.iter().enumerate() {
        let r = parser.parse(&readings(vec![(i + 1) as u16], vec![])).unwrap();
        assert!(r.get_button(*t).get());
        for other in order.iter() {
            if other != t {
                assert!(!r.get_button(*other).get());
            }
        }
    }
}

#[test]
fn zero_ends_the_usage_list_and_unknown_usages_are_ignored() {
    let parser = ps4(vec![]);
    let r = parser.parse(&readings(vec![2, 40, 0, 3, 4], vec![])).unwrap();
    assert!(r.button_south.get());
    assert!(!r.button_east.get());
    assert!(!r.button_north.get());
    let mut expected = DeviceInputs::default();
    expected.set_button(ButtonType::South, true);
    assert_eq!(r, expected);
}

#[test]
fn empty_report_is_the_neutral_record() {
    let parser = HidParser::new(3, vec![]);
    assert_eq!(parser.device_type, DeviceType::Generic);
    let r = parser.parse(&readings(vec![], vec![])).unwrap();
    assert_eq!(r, DeviceInputs::default());
}

#[test]
fn errors_come_buttons_first_then_values_in_order() {
    let parser = ps4(vec![cap(USAGE_X, 0, 4), cap(USAGE_Y, 0, 4)]);
    let bad_buttons = ReportReadings { buttons: Err(HidPError::BufferTooSmall), values: vec![Err(HidPError::Null), Ok(1)] };
    assert_eq!(parser.parse(&bad_buttons).unwrap_err(), HidPError::BufferTooSmall);
    let bad_values = ReportReadings {
        buttons: Ok(vec![]),
        values: vec![Ok(1), Err(HidPError::UsageNotFound)],
    };
    assert_eq!(parser.parse(&bad_values).unwrap_err(), HidPError::UsageNotFound);
}

#[test]
fn status_codes_name_errors() {
    assert_eq!(hidp_result(HIDP_STATUS_SUCCESS), Ok(()));
    assert_eq!(hidp_result(HIDP_STATUS_NULL), Err(HidPError::Null));
    assert_eq!(HidPError::from_code(HIDP_STATUS_BUFFER_TOO_SMALL), HidPError::BufferTooSmall);
    assert_eq!(HidPError::from_code(HIDP_STATUS_USAGE_NOT_FOUND), HidPError::UsageNotFound);
    assert_eq!(HidPError::from_code(HIDP_STATUS_NOT_IMPLEMENTED), HidPError::NotImplemented);
    assert_eq!(HidPError::from_code(0xC0110020u32 as i32), HidPError::NotImplemented);
    assert_eq!(HidPError::from_code(0x0011_0000), HidPError::Success);
    assert_eq!(HidPError::from_code(42), HidPError::Unknown(42));
    assert_eq!(HidPError::from_code(42).describe(), "Unknown");
    assert_eq!(HidPError::Null.describe(), "Null");
    assert_eq!(HidPError::DataIndexOutOfRange.describe(), "DataIndexOutOfRange");
}

#[test]
fn families_follow_the_button_count() {
    assert_eq!(HidParser::new(14, vec![]).device_type, DeviceType::PS4);
    assert_eq!(HidParser::new(13, vec![]).device_type, DeviceType::PS3);
    assert_eq!(HidParser::new(12, vec![]).device_type, DeviceType::Generic);
    assert_eq!(HidParser::new_xinput(vec![]).device_type, DeviceType::XInput);
}

#[test]
fn ig_marker_selects_the_alternate_subsystem() {
    assert!(is_xinput_device_path(b"\\\\?\\HID#VID_045E&PID_028E&IG_00#3&1"));
    assert!(!is_xinput_device_path(b"\\\\?\\HID#VID_054C&PID_05C4#7&2"));
    assert!(!is_xinput_device_path(b"&IG"));
    assert!(!is_xinput_device_path(b""));
    let p = HidParser::for_device(b"x&IG_01", 14, vec![]);
    assert_eq!(p.device_type, DeviceType::XInput);
    let p = HidParser::for_device(b"x&ig_01", 14, vec![]);
    assert_eq!(p.device_type, DeviceType::PS4);
}

#[test]
fn the_last_decoded_report_wins() {
    let parser = ps4(vec![cap(USAGE_X, 0, 4)]);
    let reports = vec![
        readings(vec![1], vec![1]),
        readings(vec![2], vec![3]),
        ReportReadings { buttons: Ok(vec![3]), values: vec![Err(HidPError::ValueOutOfRange)] },
    ];
    let r = decode_reports(&parser, &reports).unwrap();
    assert!(r.button_south.get());
    assert!(!r.button_west.get());
    assert_eq!(value(r.axis_left_stick_x), 0.75);
    let failing = vec![ReportReadings { buttons: Err(HidPError::InternalError), values: vec![Ok(1)] }];
    assert!(decode_reports(&parser, &failing).is_none());
    assert!(decode_reports(&parser, &vec![]).is_none());
}

#[test]
fn alternate_layout_decodes_its_own_buttons_and_axes() {
    let parser = HidParser::new_xinput(vec![
        cap(USAGE_X, 0, -1),
        cap(USAGE_RX, 0, 4),
        cap(USAGE_RY, 0, 4),
        cap(USAGE_Z, 0, 4),
    ]);
    let r = parser.parse(&readings(vec![1, 7, 13, 0], vec![65535, 1, 3, 2])).unwrap();
    assert!(r.button_south.get());
    assert!(r.button_select.get());
    assert!(!r.button_west.get());
    assert!(!r.button_home.get());
    assert_eq!(value(r.axis_left_stick_x), 1.0);
    assert_eq!(value(r.axis_right_stick_x), 0.25);
    assert_eq!(value(r.axis_right_stick_y), 0.75);
    assert_eq!(value(r.axis_left_trigger), 0.5);
    let ps = ps4(vec![cap(USAGE_RX, 0, 4)]);
    let r = ps.parse(&readings(vec![1], vec![1])).unwrap();
    assert!(r.button_west.get());
    assert_eq!(value(r.axis_left_trigger), 0.25);
    assert_eq!(value(r.axis_right_stick_x), 0.5);
}
