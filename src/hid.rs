//! Decoding of HID input reports into gamepad records.
//!
//! The OS's descriptor routines are called by the caller; what they return
//! (the asserted button usages of a report, the value of each value
//! capability) reaches this module as plain values.
use vstd::prelude::*;

use crate::types::{Axis, AxisType, ButtonType, DeviceInputs, Hat};

verus! {

pub const USAGE_PAGE_BUTTON: u16 = 9;

pub const USAGE_X: u16 = 0x30;
pub const USAGE_Y: u16 = 0x31;
pub const USAGE_Z: u16 = 0x32;
pub const USAGE_RX: u16 = 0x33;
pub const USAGE_RY: u16 = 0x34;
pub const USAGE_RZ: u16 = 0x35;
pub const USAGE_HAT: u16 = 0x39;

/// The most button usages that one report is asked for.
pub const MAX_BUTTONS: usize = 32;

/// 0x00110000
pub const HIDP_STATUS_SUCCESS: i32 = 1114112;
/// 0x80110001
pub const HIDP_STATUS_NULL: i32 = -2146369535;
/// 0xc0110001
pub const HIDP_STATUS_INVALID_PREPARSED_DATA: i32 = -1072627711;
/// 0xc0110002
pub const HIDP_STATUS_INVALID_REPORT_TYPE: i32 = -1072627710;
/// 0xc0110003
pub const HIDP_STATUS_INVALID_REPORT_LENGTH: i32 = -1072627709;
/// 0xc0110004
pub const HIDP_STATUS_USAGE_NOT_FOUND: i32 = -1072627708;
/// 0xc0110005
pub const HIDP_STATUS_VALUE_OUT_OF_RANGE: i32 = -1072627707;
/// 0xc0110006
pub const HIDP_STATUS_BAD_LOG_PHY_VALUES: i32 = -1072627706;
/// 0xc0110007
pub const HIDP_STATUS_BUFFER_TOO_SMALL: i32 = -1072627705;
/// 0xc0110008
pub const HIDP_STATUS_INTERNAL_ERROR: i32 = -1072627704;
/// 0xc0110009
pub const HIDP_STATUS_I8042_TRANS_UNKNOWN: i32 = -1072627703;
/// 0xc011000a
pub const HIDP_STATUS_INCOMPATIBLE_REPORT_ID: i32 = -1072627702;
/// 0xc011000b
pub const HIDP_STATUS_NOT_VALUE_ARRAY: i32 = -1072627701;
/// 0xc011000c
pub const HIDP_STATUS_IS_VALUE_ARRAY: i32 = -1072627700;
/// 0xc011000d
pub const HIDP_STATUS_DATA_INDEX_NOT_FOUND: i32 = -1072627699;
/// 0xc011000e
pub const HIDP_STATUS_DATA_INDEX_OUT_OF_RANGE: i32 = -1072627698;
/// 0xc011000f
pub const HIDP_STATUS_BUTTON_NOT_PRESSED: i32 = -1072627697;
/// 0xc0110010
pub const HIDP_STATUS_REPORT_DOES_NOT_EXIST: i32 = -1072627696;
/// 0xc0110020
pub const HIDP_STATUS_NOT_IMPLEMENTED: i32 = -1072627680;

/// A status that a HID descriptor routine returned.
#[derive(Clone, Copy, Debug, PartialEq, Eq, Structural)]
pub enum HidPError {
    BadLogPhyValues,
    BufferTooSmall,
    ButtonNotPressed,
    DataIndexNotFound,
    DataIndexOutOfRange,
    I8042TransUnknown,
    IncompatibleReportId,
    InternalError,
    InvalidPreparsedData,
    InvalidReportLength,
    InvalidReportType,
    IsValueArray,
    NotImplemented,
    NotValueArray,
    Null,
    ReportDoesNotExist,
    Success,
    UsageNotFound,
    ValueOutOfRange,
    Unknown(i32),
}

/// The error kind that names status `code`.
pub open spec fn error_of_code(code: i32) -> HidPError {
    if code == HIDP_STATUS_BAD_LOG_PHY_VALUES {
        HidPError::BadLogPhyValues
    } else if code == HIDP_STATUS_BUFFER_TOO_SMALL {
        HidPError::BufferTooSmall
    } else if code == HIDP_STATUS_BUTTON_NOT_PRESSED {
        HidPError::ButtonNotPressed
    } else if code == HIDP_STATUS_DATA_INDEX_NOT_FOUND {
        HidPError::DataIndexNotFound
    } else if code == HIDP_STATUS_DATA_INDEX_OUT_OF_RANGE {
        HidPError::DataIndexOutOfRange
    } else if code == HIDP_STATUS_I8042_TRANS_UNKNOWN {
        HidPError::I8042TransUnknown
    } else if code == HIDP_STATUS_INCOMPATIBLE_REPORT_ID {
        HidPError::IncompatibleReportId
    } else if code == HIDP_STATUS_INTERNAL_ERROR {
        HidPError::InternalError
    } else if code == HIDP_STATUS_INVALID_PREPARSED_DATA {
        HidPError::InvalidPreparsedData
    } else if code == HIDP_STATUS_INVALID_REPORT_LENGTH {
        HidPError::InvalidReportLength
    } else if code == HIDP_STATUS_INVALID_REPORT_TYPE {
        HidPError::InvalidReportType
    } else if code == HIDP_STATUS_IS_VALUE_ARRAY {
        HidPError::IsValueArray
    } else if code == HIDP_STATUS_NOT_IMPLEMENTED {
        HidPError::NotImplemented
    } else if code == HIDP_STATUS_NOT_VALUE_ARRAY {
        HidPError::NotValueArray
    } else if code == HIDP_STATUS_NULL {
        HidPError::Null
    } else if code == HIDP_STATUS_REPORT_DOES_NOT_EXIST {
        HidPError::ReportDoesNotExist
    } else if code == HIDP_STATUS_SUCCESS {
        HidPError::Success
    } else if code == HIDP_STATUS_USAGE_NOT_FOUND {
        HidPError::UsageNotFound
    } else if code == HIDP_STATUS_VALUE_OUT_OF_RANGE {
        HidPError::ValueOutOfRange
    } else {
        HidPError::Unknown(code)
    }
}

impl HidPError {
    /// The error kind that names status `code`; `Unknown(code)` for a code
    /// outside the HID facility's list.
    pub fn from_code(code: i32) -> (r: HidPError)
        ensures
            r == error_of_code(code),
    {
        if code == HIDP_STATUS_BAD_LOG_PHY_VALUES {
            HidPError::BadLogPhyValues
        } else if code == HIDP_STATUS_BUFFER_TOO_SMALL {
            HidPError::BufferTooSmall
        } else if code == HIDP_STATUS_BUTTON_NOT_PRESSED {
            HidPError::ButtonNotPressed
        } else if code == HIDP_STATUS_DATA_INDEX_NOT_FOUND {
            HidPError::DataIndexNotFound
        } else if code == HIDP_STATUS_DATA_INDEX_OUT_OF_RANGE {
            HidPError::DataIndexOutOfRange
        } else if code == HIDP_STATUS_I8042_TRANS_UNKNOWN {
            HidPError::I8042TransUnknown
        } else if code == HIDP_STATUS_INCOMPATIBLE_REPORT_ID {
            HidPError::IncompatibleReportId
        } else if code == HIDP_STATUS_INTERNAL_ERROR {
            HidPError::InternalError
        } else if code == HIDP_STATUS_INVALID_PREPARSED_DATA {
            HidPError::InvalidPreparsedData
        } else if code == HIDP_STATUS_INVALID_REPORT_LENGTH {
            HidPError::InvalidReportLength
        } else if code == HIDP_STATUS_INVALID_REPORT_TYPE {
            HidPError::InvalidReportType
        } else if code == HIDP_STATUS_IS_VALUE_ARRAY {
            HidPError::IsValueArray
        } else if code == HIDP_STATUS_NOT_IMPLEMENTED {
            HidPError::NotImplemented
        } else if code == HIDP_STATUS_NOT_VALUE_ARRAY {
            HidPError::NotValueArray
        } else if code == HIDP_STATUS_NULL {
            HidPError::Null
        } else if code == HIDP_STATUS_REPORT_DOES_NOT_EXIST {
            HidPError::ReportDoesNotExist
        } else if code == HIDP_STATUS_SUCCESS {
            HidPError::Success
        } else if code == HIDP_STATUS_USAGE_NOT_FOUND {
            HidPError::UsageNotFound
        } else if code == HIDP_STATUS_VALUE_OUT_OF_RANGE {
            HidPError::ValueOutOfRange
        } else {
            HidPError::Unknown(code)
        }
    }

    /// The name of the error's kind (`Unknown` for any unlisted code).
    pub open spec fn name(self) -> &'static str {
        match self {
            HidPError::BadLogPhyValues => "BadLogPhyValues",
            HidPError::BufferTooSmall => "BufferTooSmall",
            HidPError::ButtonNotPressed => "ButtonNotPressed",
            HidPError::DataIndexNotFound => "DataIndexNotFound",
            HidPError::DataIndexOutOfRange => "DataIndexOutOfRange",
            HidPError::I8042TransUnknown => "I8042TransUnknown",
            HidPError::IncompatibleReportId => "IncompatibleReportId",
            HidPError::InternalError => "InternalError",
            HidPError::InvalidPreparsedData => "InvalidPreparsedData",
            HidPError::InvalidReportLength => "InvalidReportLength",
            HidPError::InvalidReportType => "InvalidReportType",
            HidPError::IsValueArray => "IsValueArray",
            HidPError::NotImplemented => "NotImplemented",
            HidPError::NotValueArray => "NotValueArray",
            HidPError::Null => "Null",
            HidPError::ReportDoesNotExist => "ReportDoesNotExist",
            HidPError::Success => "Success",
            HidPError::UsageNotFound => "UsageNotFound",
            HidPError::ValueOutOfRange => "ValueOutOfRange",
            HidPError::Unknown(_) => "Unknown",
        }
    }

    /// The name of the error's kind, as text.
    pub fn describe(&self) -> (r: String)
        ensures
            r@ == self.name()@,
    {
        let s = match self {
            HidPError::BadLogPhyValues => "BadLogPhyValues",
            HidPError::BufferTooSmall => "BufferTooSmall",
            HidPError::ButtonNotPressed => "ButtonNotPressed",
            HidPError::DataIndexNotFound => "DataIndexNotFound",
            HidPError::DataIndexOutOfRange => "DataIndexOutOfRange",
            HidPError::I8042TransUnknown => "I8042TransUnknown",
            HidPError::IncompatibleReportId => "IncompatibleReportId",
            HidPError::InternalError => "InternalError",
            HidPError::InvalidPreparsedData => "InvalidPreparsedData",
            HidPError::InvalidReportLength => "InvalidReportLength",
            HidPError::InvalidReportType => "InvalidReportType",
            HidPError::IsValueArray => "IsValueArray",
            HidPError::NotImplemented => "NotImplemented",
            HidPError::NotValueArray => "NotValueArray",
            HidPError::Null => "Null",
            HidPError::ReportDoesNotExist => "ReportDoesNotExist",
            HidPError::Success => "Success",
            HidPError::UsageNotFound => "UsageNotFound",
            HidPError::ValueOutOfRange => "ValueOutOfRange",
            HidPError::Unknown(_) => "Unknown",
        };
        proof {
            assert(s == self.name());
        }
        s.to_string()
    }
}

/// `Ok` for the success status, else the error that names the status.
pub fn hidp_result(status: i32) -> (r: Result<(), HidPError>)
    ensures
        status == HIDP_STATUS_SUCCESS ==> r == Ok::<(), HidPError>(()),
        status != HIDP_STATUS_SUCCESS ==> r == Err::<(), HidPError>(error_of_code(status)),
{
    if status == HIDP_STATUS_SUCCESS {
        Ok(())
    } else {
        Err(HidPError::from_code(status))
    }
}


/// The family a device is read as.
#[derive(Clone, Copy, Debug, PartialEq, Eq, Structural)]
pub enum DeviceType {
    PS4,
    PS3,
    Generic,
    XInput,
}

/// The family of a HID device whose descriptor reports `button_count` buttons.
pub open spec fn family_of(button_count: usize) -> DeviceType {
    if button_count == 14 {
        DeviceType::PS4
    } else if button_count == 13 {
        DeviceType::PS3
    } else {
        DeviceType::Generic
    }
}

/// One value capability of a descriptor: an analog-style usage and its
/// logical range.
#[derive(Clone, Copy, Debug, PartialEq, Eq, Structural)]
pub struct ValueCap {
    pub usage_page: u16,
    pub usage: u16,
    pub logical_min: i32,
    pub logical_max: i32,
}

/// What the descriptor routines gave for one report: the asserted button
/// usages (a zero ends the list), and the value of each value capability, in
/// the order of the parser's capabilities.
#[derive(Debug)]
pub struct ReportReadings {
    pub buttons: Result<Vec<u16>, HidPError>,
    pub values: Vec<Result<i32, HidPError>>,
}

/// `x` placed in `[min, max]` as the ratio `(x - min) / (max - min)`, clamped
/// to `[0, 1]`; an empty range gives `0`.
pub open spec fn unlerp_ratio(x: i32, min: i32, max: i32) -> (nat, nat) {
    if max <= min || x <= min {
        (0, 1)
    } else if x >= max {
        (1, 1)
    } else {
        ((x - min) as nat, (max - min) as nat)
    }
}

/// The position of `x` within `[min, max]`, clamped to `[0, 1]`.
pub fn unlerp(x: i32, min: i32, max: i32) -> (r: Axis)
    ensures
        r.numer() == unlerp_ratio(x, min, max).0,
        r.denom() == unlerp_ratio(x, min, max).1,
{
    if max <= min || x <= min {
        Axis::from_ratio(0, 1)
    } else if x >= max {
        Axis::from_ratio(1, 1)
    } else {
        let num = (x as i64 - min as i64) as u32;
        let den = (max as i64 - min as i64) as u32;
        Axis::from_ratio(num, den)
    }
}

/// The hat direction that a raw hat value names: `0..7` are N, NE, E, SE, S,
/// SW, W, NW; anything else is neutral.
pub open spec fn hat_of(value: int) -> Hat {
    if value == 0 {
        Hat::North
    } else if value == 1 {
        Hat::NorthEast
    } else if value == 2 {
        Hat::East
    } else if value == 3 {
        Hat::SouthEast
    } else if value == 4 {
        Hat::South
    } else if value == 5 {
        Hat::SouthWest
    } else if value == 6 {
        Hat::West
    } else if value == 7 {
        Hat::NorthWest
    } else {
        Hat::Neutral
    }
}

/// The raw value that names direction `h`; none for the neutral position.
pub open spec fn hat_code(h: Hat) -> Option<int> {
    match h {
        Hat::North => Some(0),
        Hat::NorthEast => Some(1),
        Hat::East => Some(2),
        Hat::SouthEast => Some(3),
        Hat::South => Some(4),
        Hat::SouthWest => Some(5),
        Hat::West => Some(6),
        Hat::NorthWest => Some(7),
        Hat::Neutral => None,
    }
}

/// Decodes a raw hat value.
pub fn hat_from_value(value: i32) -> (r: Hat)
    ensures
        r == hat_of(value as int),
{
    if value == 0 {
        Hat::North
    } else if value == 1 {
        Hat::NorthEast
    } else if value == 2 {
        Hat::East
    } else if value == 3 {
        Hat::SouthEast
    } else if value == 4 {
        Hat::South
    } else if value == 5 {
        Hat::SouthWest
    } else if value == 6 {
        Hat::West
    } else if value == 7 {
        Hat::NorthWest
    } else {
        Hat::Neutral
    }
}

/// The values `0..7` decode to the eight directions in the order N, NE, E,
/// SE, S, SW, W, NW and encode back to themselves; every other value decodes
/// to neutral.
pub proof fn lemma_hat_round_trip(value: int)
    ensures
        0 <= value < 8 ==> hat_code(hat_of(value)) == Some(value),
        !(0 <= value < 8) ==> hat_of(value) == Hat::Neutral,
        hat_of(0) == Hat::North,
        hat_of(1) == Hat::NorthEast,
        hat_of(2) == Hat::East,
        hat_of(3) == Hat::SouthEast,
        hat_of(4) == Hat::South,
        hat_of(5) == Hat::SouthWest,
        hat_of(6) == Hat::West,
        hat_of(7) == Hat::NorthWest,
{
}

/// The button usage (1-based) that asserts canonical button `t` in the
/// PS4-like layout (`xinput` false) or in the alternate-subsystem layout
/// (`xinput` true); `0` where the layout has none for `t`.
pub open spec fn usage_of_button(xinput: bool, t: ButtonType) -> u16 {
    if !xinput {
        match t {
            ButtonType::West => 1,
            ButtonType::South => 2,
            ButtonType::East => 3,
            ButtonType::North => 4,
            ButtonType::L1 => 5,
            ButtonType::R1 => 6,
            ButtonType::L2 => 7,
            ButtonType::R2 => 8,
            ButtonType::Select => 9,
            ButtonType::Start => 10,
            ButtonType::L3 => 11,
            ButtonType::R3 => 12,
            ButtonType::Home => 13,
            ButtonType::Trackpad => 14,
        }
    } else {
        match t {
            ButtonType::South => 1,
            ButtonType::East => 2,
            ButtonType::West => 3,
            ButtonType::North => 4,
            ButtonType::L1 => 5,
            ButtonType::R1 => 6,
            ButtonType::Select => 7,
            ButtonType::Start => 8,
            ButtonType::L3 => 9,
            ButtonType::R3 => 10,
            _ => 0,
        }
    }
}

/// Usage `u` occurs in `list` before the first zero.
pub open spec fn usage_listed(list: Seq<u16>, u: u16) -> bool {
    u != 0 && exists|i: int|
        0 <= i < list.len() && list[i] == u && forall|j: int| 0 <= j < i ==> #[trigger] list[j] != 0
}

/// The axis that a value usage drives in a layout, if any.
pub open spec fn axis_of_usage(xinput: bool, usage: u16) -> Option<AxisType> {
    if usage == USAGE_X {
        Some(AxisType::LeftStickX)
    } else if usage == USAGE_Y {
        Some(AxisType::LeftStickY)
    } else if !xinput && usage == USAGE_Z {
        Some(AxisType::RightStickX)
    } else if !xinput && usage == USAGE_RZ {
        Some(AxisType::LeftStickY)
    } else if !xinput && usage == USAGE_RX {
        Some(AxisType::LeftTrigger)
    } else if !xinput && usage == USAGE_RY {
        Some(AxisType::RightTrigger)
    } else if xinput && usage == USAGE_RX {
        Some(AxisType::RightStickX)
    } else if xinput && usage == USAGE_RY {
        Some(AxisType::RightStickY)
    } else {
        None
    }
}

/// The upper end of a logical range as a layout reads it: the
/// alternate-subsystem layout takes a maximum of `-1` as `65535`.
pub open spec fn logical_max_in(xinput: bool, max: i32) -> i32 {
    if xinput && max == -1 {
        65535
    } else {
        max
    }
}

/// Axis `t` as `(numerator, denominator)` after the first `i` capabilities:
/// the last of them that drives `t` decides, and the center stays where none
/// does.
pub open spec fn axis_after(xinput: bool, caps: Seq<ValueCap>, vals: Seq<i32>, t: AxisType, i: int) -> (nat, nat)
    decreases i,
{
    if i <= 0 {
        (1, 2)
    } else if axis_of_usage(xinput, caps[i - 1].usage) == Some(t) {
        unlerp_ratio(vals[i - 1], caps[i - 1].logical_min, logical_max_in(xinput, caps[i - 1].logical_max))
    } else {
        axis_after(xinput, caps, vals, t, i - 1)
    }
}

/// The hat after the first `i` capabilities: the last hat-switch usage
/// among them decides; neutral where there is none.
pub open spec fn hat_after(caps: Seq<ValueCap>, vals: Seq<i32>, i: int) -> Hat
    decreases i,
{
    if i <= 0 {
        Hat::Neutral
    } else if caps[i - 1].usage == USAGE_HAT {
        hat_of(vals[i - 1] as int)
    } else {
        hat_after(caps, vals, i - 1)
    }
}

/// The record that a report decodes to in a layout: buttons from the usage
/// list, each axis and the hat from the capability values.
pub open spec fn decoded(xinput: bool, r: DeviceInputs, buttons: Seq<u16>, caps: Seq<ValueCap>, vals: Seq<i32>) -> bool {
    &&& forall|t: ButtonType| #[trigger] r.button(t).pressed() == usage_listed(buttons, usage_of_button(xinput, t))
    &&& forall|t: AxisType|
        #[trigger] r.axis(t).numer() == axis_after(xinput, caps, vals, t, caps.len() as int).0
            && r.axis(t).denom() == axis_after(xinput, caps, vals, t, caps.len() as int).1
    &&& r.hat_dpad == hat_after(caps, vals, caps.len() as int)
}

/// The first error among the readings, buttons first, then the values in order.
pub open spec fn first_error(readings: ReportReadings) -> Option<HidPError> {
    match readings.buttons {
        Err(e) => Some(e),
        Ok(_) => first_value_error(readings.values@, 0),
    }
}

pub open spec fn first_value_error(vals: Seq<Result<i32, HidPError>>, i: int) -> Option<HidPError>
    decreases vals.len() - i,
{
    if i < 0 || i >= vals.len() {
        None
    } else {
        match vals[i] {
            Err(e) => Some(e),
            Ok(_) => first_value_error(vals, i + 1),
        }
    }
}

/// The values of the readings, where all of them are `Ok`.
pub open spec fn ok_values(vals: Seq<Result<i32, HidPError>>) -> Seq<i32> {
    vals.map_values(|v: Result<i32, HidPError>| v->Ok_0)
}

/// The canonical button that button usage `u` asserts in a layout, if any.
pub open spec fn button_of_usage(xinput: bool, u: u16) -> Option<ButtonType> {
    if u == 0 {
        None
    } else if !xinput {
        if u == 1 {
            Some(ButtonType::West)
        } else if u == 2 {
            Some(ButtonType::South)
        } else if u == 3 {
            Some(ButtonType::East)
        } else if u == 4 {
            Some(ButtonType::North)
        } else if u == 5 {
            Some(ButtonType::L1)
        } else if u == 6 {
            Some(ButtonType::R1)
        } else if u == 7 {
            Some(ButtonType::L2)
        } else if u == 8 {
            Some(ButtonType::R2)
        } else if u == 9 {
            Some(ButtonType::Select)
        } else if u == 10 {
            Some(ButtonType::Start)
        } else if u == 11 {
            Some(ButtonType::L3)
        } else if u == 12 {
            Some(ButtonType::R3)
        } else if u == 13 {
            Some(ButtonType::Home)
        } else if u == 14 {
            Some(ButtonType::Trackpad)
        } else {
            None
        }
    } else {
        if u == 1 {
            Some(ButtonType::South)
        } else if u == 2 {
            Some(ButtonType::East)
        } else if u == 3 {
            Some(ButtonType::West)
        } else if u == 4 {
            Some(ButtonType::North)
        } else if u == 5 {
            Some(ButtonType::L1)
        } else if u == 6 {
            Some(ButtonType::R1)
        } else if u == 7 {
            Some(ButtonType::Select)
        } else if u == 8 {
            Some(ButtonType::Start)
        } else if u == 9 {
            Some(ButtonType::L3)
        } else if u == 10 {
            Some(ButtonType::R3)
        } else {
            None
        }
    }
}

/// The two button tables of a layout agree: a nonzero usage `u` asserts `t`
/// exactly when `t`'s usage is `u`.
proof fn lemma_button_usage(xinput: bool, u: u16, t: ButtonType)
    requires
        u != 0,
    ensures
        (button_of_usage(xinput, u) == Some(t)) == (usage_of_button(xinput, t) == u),
{
}

/// The canonical button that button usage `u` asserts in a layout, if any.
pub fn button_for_usage(xinput: bool, u: u16) -> (r: Option<ButtonType>)
    ensures
        r == button_of_usage(xinput, u),
{
    if u == 0 {
        None
    } else if !xinput {
        if u == 1 {
            Some(ButtonType::West)
        } else if u == 2 {
            Some(ButtonType::South)
        } else if u == 3 {
            Some(ButtonType::East)
        } else if u == 4 {
            Some(ButtonType::North)
        } else if u == 5 {
            Some(ButtonType::L1)
        } else if u == 6 {
            Some(ButtonType::R1)
        } else if u == 7 {
            Some(ButtonType::L2)
        } else if u == 8 {
            Some(ButtonType::R2)
        } else if u == 9 {
            Some(ButtonType::Select)
        } else if u == 10 {
            Some(ButtonType::Start)
        } else if u == 11 {
            Some(ButtonType::L3)
        } else if u == 12 {
            Some(ButtonType::R3)
        } else if u == 13 {
            Some(ButtonType::Home)
        } else if u == 14 {
            Some(ButtonType::Trackpad)
        } else {
            None
        }
    } else {
        if u == 1 {
            Some(ButtonType::South)
        } else if u == 2 {
            Some(ButtonType::East)
        } else if u == 3 {
            Some(ButtonType::West)
        } else if u == 4 {
            Some(ButtonType::North)
        } else if u == 5 {
            Some(ButtonType::L1)
        } else if u == 6 {
            Some(ButtonType::R1)
        } else if u == 7 {
            Some(ButtonType::Select)
        } else if u == 8 {
            Some(ButtonType::Start)
        } else if u == 9 {
            Some(ButtonType::L3)
        } else if u == 10 {
            Some(ButtonType::R3)
        } else {
            None
        }
    }
}

/// The axis that value usage `u` drives in a layout, if any.
pub fn axis_for_usage(xinput: bool, u: u16) -> (r: Option<AxisType>)
    ensures
        r == axis_of_usage(xinput, u),
{
    if u == USAGE_X {
        Some(AxisType::LeftStickX)
    } else if u == USAGE_Y {
        Some(AxisType::LeftStickY)
    } else if !xinput && u == USAGE_Z {
        Some(AxisType::RightStickX)
    } else if !xinput && u == USAGE_RZ {
        Some(AxisType::LeftStickY)
    } else if !xinput && u == USAGE_RX {
        Some(AxisType::LeftTrigger)
    } else if !xinput && u == USAGE_RY {
        Some(AxisType::RightTrigger)
    } else if xinput && u == USAGE_RX {
        Some(AxisType::RightStickX)
    } else if xinput && u == USAGE_RY {
        Some(AxisType::RightStickY)
    } else {
        None
    }
}

/// Presses the canonical button that the nonzero usage `b` asserts in a
/// layout, if any.
fn press_usage(result: &mut DeviceInputs, xinput: bool, b: u16)
    requires
        b != 0,
    ensures
        forall|t: ButtonType|
            #[trigger] final(result).button(t).pressed() == (old(result).button(t).pressed() || usage_of_button(xinput, t) == b),
        forall|t: AxisType| #[trigger] final(result).axis(t) == old(result).axis(t),
        final(result).hat_dpad == old(result).hat_dpad,
{
    if let Some(t) = button_for_usage(xinput, b) {
        result.set_button(t, true);
        proof {
            assert forall|t2: ButtonType| #[trigger] final(result).button(t2).pressed() == (old(result).button(t2).pressed() || usage_of_button(xinput, t2) == b) by {
                lemma_button_usage(xinput, b, t2);
            }
        }
    } else {
        proof {
            assert forall|t2: ButtonType| usage_of_button(xinput, t2) != b by {
                lemma_button_usage(xinput, b, t2);
            }
        }
    }
}

/// `pat` occurs in `text` starting at index `j`.
pub open spec fn occurs_at(text: Seq<u8>, pat: Seq<u8>, j: int) -> bool {
    0 <= j && j + pat.len() <= text.len() && text.subrange(j, j + pat.len() as int) == pat
}

/// The ASCII bytes `&IG_`, which mark the path of a device that the
/// alternate subsystem owns.
pub open spec fn xinput_marker() -> Seq<u8> {
    seq![0x26u8, 0x49u8, 0x47u8, 0x5fu8]
}

/// Relies on `twoway::find_bytes`: the index of the first occurrence of
/// `pattern` in `text`, none where it does not occur.
#[verifier::external_body]
fn find_bytes(text: &[u8], pattern: &[u8]) -> (r: Option<usize>)
    ensures
        match r {
            Some(i) => occurs_at(text@, pattern@, i as int) && forall|j: int| 0 <= j < i ==> !occurs_at(text@, pattern@, j),
            None => forall|j: int| !occurs_at(text@, pattern@, j),
        },
{
    twoway::find_bytes(text, pattern)
}

/// Whether an OS device path names a device that the alternate subsystem
/// owns: it holds the bytes `&IG_`.
pub fn is_xinput_device_path(path: &[u8]) -> (r: bool)
    ensures
        r == exists|j: int| occurs_at(path@, xinput_marker(), j),
{
    let pattern: Vec<u8> = vec![0x26u8, 0x49u8, 0x47u8, 0x5fu8];
    proof {
        assert(pattern@ =~= xinput_marker());
    }
    let found = find_bytes(path, pattern.as_slice());
    found.is_some()
}

/// `r` is what decoding `readings` in a layout gives, with capabilities
/// `caps`: the first error if any reading failed, else the decoded record.
pub open spec fn layout_spec(xinput: bool, caps: Seq<ValueCap>, readings: &ReportReadings, r: Result<DeviceInputs, HidPError>) -> bool {
    match first_error(*readings) {
        Some(e) => r == Err::<DeviceInputs, HidPError>(e),
        None => r is Ok && decoded(xinput, r->Ok_0, readings.buttons->Ok_0@, caps, ok_values(readings.values@)),
    }
}

/// Per-device decoding state: the family and the cached value capabilities.
#[derive(Clone, Debug)]
pub struct HidParser {
    pub device_type: DeviceType,
    pub value_caps: Vec<ValueCap>,
}

impl HidParser {
    /// A parser for a device whose descriptor reports `button_count` buttons
    /// and the value capabilities `value_caps`.
    pub fn new(button_count: usize, value_caps: Vec<ValueCap>) -> (r: HidParser)
        ensures
            r.device_type == family_of(button_count),
            r.value_caps@ == value_caps@,
    {
        let mut device_type = DeviceType::Generic;
        if button_count == 14 {
            device_type = DeviceType::PS4;
        } else if button_count == 13 {
            device_type = DeviceType::PS3;
        }
        HidParser { device_type, value_caps }
    }

    /// The parser for a device opened at OS path `path`, whose descriptor
    /// reports `button_count` buttons and the value capabilities
    /// `value_caps`: a path marked `&IG_` gives the alternate-subsystem
    /// family, else the button count decides.
    pub fn for_device(path: &[u8], button_count: usize, value_caps: Vec<ValueCap>) -> (r: HidParser)
        ensures
            r.device_type == (if exists|j: int| occurs_at(path@, xinput_marker(), j) {
                DeviceType::XInput
            } else {
                family_of(button_count)
            }),
            r.value_caps@ == value_caps@,
    {
        if is_xinput_device_path(path) {
            HidParser::new_xinput(value_caps)
        } else {
            HidParser::new(button_count, value_caps)
        }
    }

    /// A parser for a device that the alternate subsystem owns.
    pub fn new_xinput(value_caps: Vec<ValueCap>) -> (r: HidParser)
        ensures
            r.device_type == DeviceType::XInput,
            r.value_caps@ == value_caps@,
    {
        HidParser { device_type: DeviceType::XInput, value_caps }
    }

    /// Decodes one report by its family: the PS3-like and generic families
    /// use the PS4-like layout, a device of the alternate subsystem its own.
    pub fn parse(&self, readings: &ReportReadings) -> (r: Result<DeviceInputs, HidPError>)
        requires
            readings.values@.len() == self.value_caps@.len(),
        ensures
            self.parse_spec(readings, r),
    {
        match self.device_type {
            DeviceType::PS4 => self.parse_ps4(readings),
            DeviceType::PS3 => self.parse_ps4(readings),
            DeviceType::Generic => self.parse_ps4(readings),
            DeviceType::XInput => self.parse_xinput(readings),
        }
    }

    /// `r` is what decoding `readings` by the parser's family gives.
    pub open spec fn parse_spec(self, readings: &ReportReadings, r: Result<DeviceInputs, HidPError>) -> bool {
        layout_spec(self.device_type == DeviceType::XInput, self.value_caps@, readings, r)
    }

    /// Decodes one report in the PS4-like layout.
    pub fn parse_ps4(&self, readings: &ReportReadings) -> (r: Result<DeviceInputs, HidPError>)
        requires
            readings.values@.len() == self.value_caps@.len(),
        ensures
            layout_spec(false, self.value_caps@, readings, r),
    {
        self.decode_in_layout(readings, false)
    }

    /// Decodes one report in the alternate-subsystem layout.
    pub fn parse_xinput(&self, readings: &ReportReadings) -> (r: Result<DeviceInputs, HidPError>)
        requires
            readings.values@.len() == self.value_caps@.len(),
        ensures
            layout_spec(true, self.value_caps@, readings, r),
    {
        self.decode_in_layout(readings, true)
    }

    fn decode_in_layout(&self, readings: &ReportReadings, xinput: bool) -> (r: Result<DeviceInputs, HidPError>)
        requires
            readings.values@.len() == self.value_caps@.len(),
        ensures
            layout_spec(xinput, self.value_caps@, readings, r),
    {
        let mut result = DeviceInputs::default();
        let buttons = match &readings.buttons {
            Ok(b) => b,
            Err(e) => {
                return Err(*e);
            },
        };
        proof {
            assert(readings.buttons is Ok);
            assert(buttons@ == readings.buttons->Ok_0@);
        }
        let mut end: usize = 0;
        while end < buttons.len() && buttons[end] != 0
            invariant
                end <= buttons@.len(),
                forall|j: int| 0 <= j < end ==> #[trigger] buttons@[j] != 0,
            decreases buttons@.len() - end,
        {
            end = end + 1;
        }
        let mut i: usize = 0;
        while i < end
            invariant
                i <= end <= buttons@.len(),
                forall|j: int| 0 <= j < end ==> #[trigger] buttons@[j] != 0,
                forall|t: ButtonType|
                    #[trigger] result.button(t).pressed() == exists|j: int|
                        0 <= j < i && #[trigger] buttons@[j] == usage_of_button(xinput, t),
                forall|t: AxisType| #[trigger] result.axis(t) == Axis::center_spec(),
                result.hat_dpad == Hat::Neutral,
            decreases end - i,
        {
            let ghost before = result;
            press_usage(&mut result, xinput, buttons[i]);
            proof {
                assert forall|t: ButtonType|
                    #[trigger] result.button(t).pressed() == exists|j: int|
                        0 <= j < i + 1 && #[trigger] buttons@[j] == usage_of_button(xinput, t) by {
                    if buttons@[i as int] == usage_of_button(xinput, t) {
                        assert(0 <= i < i + 1 && buttons@[i as int] == usage_of_button(xinput, t));
                    } else {
                        if exists|j: int| 0 <= j < i + 1 && #[trigger] buttons@[j] == usage_of_button(xinput, t) {
                            let j = choose|j: int| 0 <= j < i + 1 && #[trigger] buttons@[j] == usage_of_button(xinput, t);
                            assert(j < i);
                        }
                    }
                }
            }
            i = i + 1;
        }
        proof {
            assert forall|t: ButtonType|
                #[trigger] result.button(t).pressed() == usage_listed(buttons@, usage_of_button(xinput, t)) by {
                let u = usage_of_button(xinput, t);
                if usage_listed(buttons@, u) {
                    let j = choose|j: int|
                        0 <= j < buttons@.len() && buttons@[j] == u && forall|m: int|
                            0 <= m < j ==> #[trigger] buttons@[m] != 0;
                    if j >= end {
                        assert(buttons@[end as int] == 0);
                        assert(false);
                    }
                    assert(0 <= j < i && buttons@[j] == u);
                }
                if result.button(t).pressed() {
                    let j = choose|j: int| 0 <= j < i && #[trigger] buttons@[j] == u;
                    assert(forall|m: int| 0 <= m < j ==> #[trigger] buttons@[m] != 0);
                }
            }
            Axis::lemma_center();
        }
        let caps = &self.value_caps;
        let ghost vals = ok_values(readings.values@);
        let mut c: usize = 0;
        while c < caps.len()
            invariant
                c <= caps@.len(),
                caps@.len() == readings.values@.len(),
                caps == &self.value_caps,
                readings.buttons is Ok,
                vals == ok_values(readings.values@),
                first_value_error(readings.values@, 0) == first_value_error(readings.values@, c as int),
                forall|t: ButtonType| #[trigger] result.button(t).pressed() == usage_listed(buttons@, usage_of_button(xinput, t)),
                forall|t: AxisType|
                    #[trigger] result.axis(t).numer() == axis_after(xinput, caps@, vals, t, c as int).0
                        && result.axis(t).denom() == axis_after(xinput, caps@, vals, t, c as int).1,
                result.hat_dpad == hat_after(caps@, vals, c as int),
            decreases caps@.len() - c,
        {
            let value_cap = caps[c];
            let value = match &readings.values[c] {
                Ok(v) => *v,
                Err(e) => {
                    proof {
                        assert(first_value_error(readings.values@, c as int) == Some(*e));
                        assert(first_error(*readings) == Some(*e));
                    }
                    return Err(*e);
                },
            };
            proof {
                assert(vals[c as int] == value);
                assert(first_value_error(readings.values@, c as int) == first_value_error(readings.values@, c + 1));
            }
            let logical_max = if xinput && value_cap.logical_max == -1 {
                65535
            } else {
                value_cap.logical_max
            };
            let unlerped = unlerp(value, value_cap.logical_min, logical_max);
            let usage = value_cap.usage;
            let ghost before = result;
            match axis_for_usage(xinput, usage) {
                Some(t) => {
                    result.set_axis(t, unlerped);
                    proof {
                        assert(value_cap == caps@[c as int]);
                        assert(logical_max == logical_max_in(xinput, caps@[c as int].logical_max));
                        assert(axis_after(xinput, caps@, vals, t, c + 1) == unlerp_ratio(vals[c as int], caps@[c as int].logical_min, logical_max));
                        assert forall|t2: AxisType|
                            #[trigger] result.axis(t2).numer() == axis_after(xinput, caps@, vals, t2, c + 1).0
                                && result.axis(t2).denom() == axis_after(xinput, caps@, vals, t2, c + 1).1 by {
                            if t2 != t {
                                assert(result.axis(t2) == before.axis(t2));
                                assert(axis_of_usage(xinput, caps@[c as int].usage) != Some(t2));
                                assert(axis_after(xinput, caps@, vals, t2, c + 1) == axis_after(xinput, caps@, vals, t2, c as int));
                                assert(before.axis(t2).numer() == axis_after(xinput, caps@, vals, t2, c as int).0);
                            } else {
                                assert(result.axis(t2) == unlerped);
                                assert(unlerped.numer() == unlerp_ratio(value, value_cap.logical_min, logical_max).0);
                            }
                        }
                    }
                },
                None => {
                    if usage == USAGE_HAT {
                        result.set_hat(hat_from_value(value));
                    }
                    proof {
                        assert forall|t2: AxisType|
                            #[trigger] result.axis(t2).numer() == axis_after(xinput, caps@, vals, t2, c + 1).0
                                && result.axis(t2).denom() == axis_after(xinput, caps@, vals, t2, c + 1).1 by {
                            assert(result.axis(t2) == before.axis(t2));
                            assert(axis_of_usage(xinput, caps@[c as int].usage) is None);
                            assert(axis_after(xinput, caps@, vals, t2, c + 1) == axis_after(xinput, caps@, vals, t2, c as int));
                            assert(before.axis(t2).numer() == axis_after(xinput, caps@, vals, t2, c as int).0);
                        }
                    }
                },
            }
            proof {
                assert(forall|t2: AxisType|
                    #[trigger] result.axis(t2).numer() == axis_after(xinput, caps@, vals, t2, c + 1).0
                        && result.axis(t2).denom() == axis_after(xinput, caps@, vals, t2, c + 1).1);
            }
            c = c + 1;
        }
        proof {
            assert(first_value_error(readings.values@, c as int) == None::<HidPError>);
            assert(first_error(*readings) == None::<HidPError>);
            assert(buttons@ == readings.buttons->Ok_0@);
            assert(caps@ == self.value_caps@);
            assert(decoded(xinput, result, buttons@, caps@, vals));
        }
        Ok(result)
    }
}

/// Every report's readings have one value per capability of `parser`.
pub open spec fn readings_fit(parser: HidParser, reports: Seq<ReportReadings>) -> bool {
    forall|i: int| 0 <= i < reports.len() ==> (#[trigger] reports[i]).values@.len() == parser.value_caps@.len()
}

/// No report of `reports` decodes: each has a failed reading.
pub open spec fn none_decoded(reports: Seq<ReportReadings>) -> bool {
    forall|j: int| 0 <= j < reports.len() ==> first_error(#[trigger] reports[j]) is Some
}

/// `d` is what the last report of `reports` that decodes decodes to.
pub open spec fn is_last_decoded(parser: HidParser, reports: Seq<ReportReadings>, d: DeviceInputs) -> bool {
    exists|i: int|
        0 <= i < reports.len() && parser.parse_spec(&reports[i], Ok(d)) && forall|j: int|
            i < j < reports.len() ==> first_error(#[trigger] reports[j]) is Some
}

/// Decodes `count` reports of one input message and keeps the last one that
/// decoded; a report whose readings failed is dropped. `None` where none
/// decoded.
pub fn decode_reports(parser: &HidParser, reports: &Vec<ReportReadings>) -> (r: Option<DeviceInputs>)
    requires
        forall|i: int| 0 <= i < reports@.len() ==> (#[trigger] reports@[i]).values@.len() == parser.value_caps@.len(),
    ensures
        match r {
            Some(d) => is_last_decoded(*parser, reports@, d),
            None => none_decoded(reports@),
        },
{
    let mut last: Option<DeviceInputs> = None;
    let mut i: usize = 0;
    while i < reports.len()
        invariant
            i <= reports@.len(),
            forall|i: int| 0 <= i < reports@.len() ==> (#[trigger] reports@[i]).values@.len() == parser.value_caps@.len(),
            match last {
                Some(d) => exists|k: int|
                    0 <= k < i && parser.parse_spec(&reports@[k], Ok(d)) && forall|j: int|
                        k < j < i ==> first_error(#[trigger] reports@[j]) is Some,
                None => forall|j: int| 0 <= j < i ==> first_error(#[trigger] reports@[j]) is Some,
            },
        decreases reports@.len() - i,
    {
        match parser.parse(&reports[i]) {
            Ok(d) => {
                last = Some(d);
            },
            Err(_) => {},
        }
        i = i + 1;
    }
    last
}


/// A value `v` within `[min, max]` of a nonempty range decodes to exactly
/// `(v - min) / (max - min)`.
pub proof fn lemma_unlerp_exact(v: i32, min: i32, max: i32)
    requires
        min < max,
        min <= v <= max,
    ensures
        unlerp_ratio(v, min, max).0 * (max - min) == (v - min) * unlerp_ratio(v, min, max).1,
{
    let (n, d) = unlerp_ratio(v, min, max);
    if v == min {
        assert(n == 0 && d == 1);
    } else if v == max {
        assert(n == 1 && d == 1);
    } else {
        assert(n == v - min && d == max - min);
        assert(n * (max - min) == (v - min) * d) by (nonlinear_arith)
            requires
                n == v - min,
                d == max - min,
        ;
    }
}

/// A report whose one value capability is the X usage with logical range
/// `[min, max]`, carrying `v` within that range, decodes to a left-stick X of
/// `(v - min) / (max - min)`.
pub proof fn lemma_decode_left_stick_x(r: DeviceInputs, buttons: Seq<u16>, cap: ValueCap, v: i32)
    requires
        cap.usage == USAGE_X,
        cap.logical_min < cap.logical_max,
        cap.logical_min <= v <= cap.logical_max,
        decoded(false, r, buttons, seq![cap], seq![v]),
    ensures
        r.axis_left_stick_x.is_ratio(v - cap.logical_min, cap.logical_max - cap.logical_min),
{
    let caps = seq![cap];
    let vals = seq![v];
    assert(r.axis(AxisType::LeftStickX) == r.axis_left_stick_x);
    assert(axis_after(false, caps, vals, AxisType::LeftStickX, 1) == unlerp_ratio(v, cap.logical_min, cap.logical_max));
    lemma_unlerp_exact(v, cap.logical_min, cap.logical_max);
}

} // verus!
