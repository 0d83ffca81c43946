use dhc::context::Context;
use dhc::input::{DeviceDescription, DeviceId, RawInputDeviceId, RawInputEvent, XInputDeviceId};
use dhc::types::{Axis, AxisType, ButtonType, DeviceInputs, Hat};

fn value(a: Axis) -> f64 {
    let (n, d) = a.get();
    n as f64 / d as f64
}

fn raw(n: u64) -> DeviceId {
    DeviceId::RawInput(RawInputDeviceId(n))
}

fn arrival(n: u64) -> (RawInputEvent, triple_buffer::Input<DeviceInputs>) {
    let (write, read) = triple_buffer::TripleBuffer::new(&DeviceInputs::default()).split();
    let description = DeviceDescription { device_id: raw(n), device_name: format!("pad {}", n) };
    (RawInputEvent::DeviceArrived(description, read), write)
}

fn is_neutral(d: &DeviceInputs) -> bool {
    *d == DeviceInputs::default()
}

#[test]
fn fresh_context_has_centered_slots() {
    let ctx = Context::new(2, false);
    assert_eq!(ctx.device_count(), 2);
    assert!(!ctx.xinput_enabled());
    assert_eq!(value(ctx.device_state(0).axis_left_stick_x), 0.5);
    assert!(is_neutral(&ctx.device_state(0)));
    assert!(is_neutral(&ctx.device_state(1)));
    assert_eq!(ctx.device_binding(0), None);
    assert_eq!(ctx.device_binding(1), None);
}

#[test]
fn one_arrival_binds_slot_zero() {
    let mut ctx = Context::new(2, false);
    let (event, _write) = arrival(1);
    ctx.update(vec![event]);
    assert_eq!(ctx.device_binding(0), Some(raw(1)));
    assert_eq!(ctx.device_binding(1), None);
}

#[test]
fn two_arrivals_bind_newest_first() {
    let mut ctx = Context::new(2, false);
    let (e1, _w1) = arrival(1);
    let (e2, _w2) = arrival(2);
    ctx.update(vec![e1, e2]);
    assert_eq!(ctx.device_binding(0), Some(raw(2)));
    assert_eq!(ctx.device_binding(1), Some(raw(1)));
}

#[test]
fn removal_rebinds_and_frees_slot() {
    let mut ctx = Context::new(2, false);
    let (e1, mut w1) = arrival(1);
    let (e2, mut w2) = arrival(2);
    ctx.update(vec![e1, e2]);
    let mut pressed = DeviceInputs::default();
    pressed.set_button(ButtonType::South, true);
    w1.write(pressed);
    w2.write(pressed);
    ctx.update(vec![]);
    assert!(ctx.device_state(1).button_south.get());
    ctx.update(vec![RawInputEvent::DeviceRemoved(raw(2))]);
    assert_eq!(ctx.device_binding(0), Some(raw(1)));
    assert_eq!(ctx.device_binding(1), None);
    assert!(is_neutral(&ctx.device_state(1)));
    assert!(ctx.device_state(0).button_south.get());
}

#[test]
fn bound_slot_copies_latest_published_record() {
    let mut ctx = Context::new(1, true);
    let (e1, mut w1) = arrival(7);
    ctx.update(vec![e1]);
    let mut rec = DeviceInputs::default();
    rec.set_axis(AxisType::LeftStickX, Axis::from_ratio(3, 4));
    rec.set_hat(Hat::West);
    w1.write(rec);
    // Nothing reaches the slot before the next update.
    assert!(is_neutral(&ctx.device_state(0)));
    ctx.update(vec![]);
    assert_eq!(value(ctx.device_state(0).axis_left_stick_x), 0.75);
    assert_eq!(ctx.device_state(0).hat_dpad, Hat::West);
    assert!(ctx.xinput_enabled());
}

#[test]
fn update_without_events_is_idempotent() {
    let mut ctx = Context::new(2, false);
    let (e1, mut w1) = arrival(1);
    ctx.update(vec![e1]);
    let mut rec = DeviceInputs::default();
    rec.set_button(ButtonType::Start, true);
    w1.write(rec);
    ctx.update(vec![]);
    let first = (ctx.device_state(0), ctx.device_state(1), ctx.device_binding(0), ctx.device_binding(1));
    ctx.update(vec![]);
    let second = (ctx.device_state(0), ctx.device_state(1), ctx.device_binding(0), ctx.device_binding(1));
    assert_eq!(first, second);
}

#[test]
fn more_devices_than_slots_binds_the_newest() {
    let mut ctx = Context::new(2, false);
    let (e1, _w1) = arrival(1);
    let (e2, _w2) = arrival(2);
    let (e3, _w3) = arrival(3);
    ctx.update(vec![e1, e2, e3]);
    assert_eq!(ctx.device_binding(0), Some(raw(3)));
    assert_eq!(ctx.device_binding(1), Some(raw(2)));
    ctx.update(vec![RawInputEvent::DeviceRemoved(raw(3))]);
    assert_eq!(ctx.device_binding(0), Some(raw(2)));
    assert_eq!(ctx.device_binding(1), Some(raw(1)));
}

#[test]
fn three_arrivals_in_three_slots_newest_first() {
    let mut ctx = Context::new(3, false);
    let (e1, _w1) = arrival(1);
    ctx.update(vec![e1]);
    let (e2, _w2) = arrival(2);
    ctx.update(vec![e2]);
    let (e3, _w3) = arrival(3);
    ctx.update(vec![e3]);
    assert_eq!(ctx.device_binding(0), Some(raw(3)));
    assert_eq!(ctx.device_binding(1), Some(raw(2)));
    assert_eq!(ctx.device_binding(2), Some(raw(1)));
}

#[test]
fn unknown_removal_and_repeated_arrival_are_ignored() {
    let mut ctx = Context::new(2, false);
    let (e1, _w1) = arrival(1);
    let (again, _w) = arrival(1);
    ctx.update(vec![e1, again, RawInputEvent::DeviceRemoved(raw(9))]);
    assert_eq!(ctx.device_binding(0), Some(raw(1)));
    assert_eq!(ctx.device_binding(1), None);
}

#[test]
fn identities_of_two_kinds_do_not_collide() {
    let a = DeviceId::RawInput(RawInputDeviceId(1));
    let b = DeviceId::XInput(XInputDeviceId(1));
    assert_ne!(a, b);
    let mut ctx = Context::new(2, false);
    let (w, r) = triple_buffer::TripleBuffer::new(&DeviceInputs::default()).split();
    let _w = w;
    let e = RawInputEvent::DeviceArrived(DeviceDescription { device_id: b, device_name: "x".to_string() }, r);
    let (e1, _w1) = arrival(1);
    ctx.update(vec![e1, e]);
    assert_eq!(ctx.device_binding(0), Some(b));
    assert_eq!(ctx.device_binding(1), Some(a));
}

#[test]
fn zero_slots_bind_nothing() {
    let mut ctx = Context::new(0, false);
    let (e1, _w1) = arrival(1);
    ctx.update(vec![e1]);
    assert_eq!(ctx.device_count(), 0);
}

#[test]
fn update_returns_the_records_it_copied() {
    let mut ctx = Context::new(2, false);
    let (e1, mut w1) = arrival(1);
    let reads = ctx.update(vec![e1]);
    assert_eq!(reads, vec![Some(DeviceInputs::default()), None]);
    let mut rec = DeviceInputs::default();
    rec.set_button(ButtonType::R1, true);
    w1.write(rec);
    let reads = ctx.update(vec![]);
    assert_eq!(reads, vec![Some(rec), None]);
    assert_eq!(ctx.device_state(0), rec);
    // No new write: the same record comes back and nothing changes.
    let reads = ctx.update(vec![]);
    assert_eq!(reads, vec![Some(rec), None]);
    assert_eq!(ctx.device_state(0), rec);
}
