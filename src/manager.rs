//! The raw-input manager's bookkeeping: which devices are open, which of
//! them the alternate subsystem owns, and the queue of events for the
//! binding engine. The OS calls are the caller's: it hands in what they
//! returned and performs what the methods ask for (a scan of the alternate
//! subsystem, a read of its devices).
use vstd::prelude::*;

use crate::hid::{decode_reports, is_last_decoded, none_decoded, readings_fit, DeviceType, HidParser, ReportReadings};
use crate::input::{DeviceDescription, DeviceId, RawInputDeviceId, RawInputEvent, XInputDeviceId};
use crate::transport::Publisher;
use crate::types::{neutral_inputs, DeviceInputs};

verus! {

/// The number of fixed indices of the alternate subsystem.
pub const XINPUT_SLOTS: usize = 4;

/// An open raw-input device: the write side of its transport and its parser.
pub struct RawInputDeviceState {
    pub id: RawInputDeviceId,
    pub buffer: Publisher,
    pub hid: HidParser,
    pub is_xinput: bool,
}

/// A connected alternate-subsystem device: the write side of its transport.
pub struct XInputDeviceState {
    pub id: XInputDeviceId,
    pub buffer: Publisher,
}

/// The bookkeeping of the raw-input manager. The device tables are vectors
/// whose keys are unique (see `wf`); the event queue is oldest first.
pub struct RawInputManager {
    pub event_queue: Vec<RawInputEvent>,
    pub devices: Vec<RawInputDeviceState>,
    pub xinput_devices: Vec<XInputDeviceState>,
}

/// An event as `(device, is_arrival)`.
pub open spec fn event_view(e: RawInputEvent) -> (DeviceId, bool) {
    (e.device(), e.is_arrival())
}

/// The indices below `n` that are known but read nothing: devices that left.
pub open spec fn killed_upto(known: Set<usize>, present: Seq<bool>, n: int) -> Seq<usize>
    decreases n,
{
    if n <= 0 {
        Seq::empty()
    } else if known.contains((n - 1) as usize) && !present[n - 1] {
        killed_upto(known, present, n - 1).push((n - 1) as usize)
    } else {
        killed_upto(known, present, n - 1)
    }
}

/// The indices below `n` that are unknown but read a state: devices that came.
pub open spec fn new_upto(known: Set<usize>, present: Seq<bool>, n: int) -> Seq<usize>
    decreases n,
{
    if n <= 0 {
        Seq::empty()
    } else if !known.contains((n - 1) as usize) && present[n - 1] {
        new_upto(known, present, n - 1).push((n - 1) as usize)
    } else {
        new_upto(known, present, n - 1)
    }
}

/// A removal event for each index of `ids`.
pub open spec fn removal_views(ids: Seq<usize>) -> Seq<(DeviceId, bool)> {
    ids.map_values(|i: usize| (DeviceId::XInput(XInputDeviceId(i)), false))
}

/// An arrival event for each index of `ids`.
pub open spec fn arrival_views(ids: Seq<usize>) -> Seq<(DeviceId, bool)> {
    ids.map_values(|i: usize| (DeviceId::XInput(XInputDeviceId(i)), true))
}

impl RawInputManager {
    /// The queued events, oldest first.
    pub open spec fn events(self) -> Seq<(DeviceId, bool)> {
        self.event_queue@.map_values(|e: RawInputEvent| event_view(e))
    }

    /// The open raw-input devices, in table order.
    pub open spec fn raw_ids(self) -> Seq<RawInputDeviceId> {
        self.devices@.map_values(|d: RawInputDeviceState| d.id)
    }

    /// The indices of the connected alternate-subsystem devices.
    pub open spec fn xinput_indices(self) -> Set<usize> {
        Set::new(|i: usize| exists|k: int| 0 <= k < self.xinput_devices@.len() && (#[trigger] self.xinput_devices@[k]).id.0 == i)
    }

    /// No device is listed twice, and every alternate-subsystem index is
    /// below `XINPUT_SLOTS`.
    pub open spec fn wf(self) -> bool {
        &&& forall|a: int, b: int|
            0 <= a < b < self.devices@.len() ==> (#[trigger] self.devices@[a]).id != (#[trigger] self.devices@[b]).id
        &&& forall|a: int, b: int|
            0 <= a < b < self.xinput_devices@.len() ==> (#[trigger] self.xinput_devices@[a]).id
                != (#[trigger] self.xinput_devices@[b]).id
        &&& forall|a: int| 0 <= a < self.xinput_devices@.len() ==> (#[trigger] self.xinput_devices@[a]).id.0 < XINPUT_SLOTS
    }

    /// No device open, none connected, no events.
    pub fn new() -> (r: RawInputManager)
        ensures
            r.wf(),
            r.events().len() == 0,
            r.raw_ids().len() == 0,
            r.xinput_indices() == Set::<usize>::empty(),
    {
        let r = RawInputManager { event_queue: Vec::new(), devices: Vec::new(), xinput_devices: Vec::new() };
        proof {
            assert(r.xinput_indices() =~= Set::<usize>::empty());
        }
        r
    }

    /// Where the open device `id` stands in the table.
    pub fn find_device(&self, id: RawInputDeviceId) -> (r: Option<usize>)
        ensures
            match r {
                Some(i) => i < self.devices@.len() && self.devices@[i as int].id == id,
                None => !self.raw_ids().contains(id),
            },
    {
        let mut i: usize = 0;
        while i < self.devices.len()
            invariant
                i <= self.devices@.len(),
                forall|j: int| 0 <= j < i ==> self.devices@[j].id != id,
            decreases self.devices@.len() - i,
        {
            if self.devices[i].id == id {
                return Some(i);
            }
            i = i + 1;
        }
        proof {
            if self.raw_ids().contains(id) {
                let j = choose|j: int| 0 <= j < self.raw_ids().len() && self.raw_ids()[j] == id;
                assert(self.devices@[j].id == id);
            }
        }
        None
    }

    /// The parser of the open device `id`, for reading its reports.
    pub fn parser(&self, id: RawInputDeviceId) -> (r: Option<&HidParser>)
        ensures
            r is None <==> !self.raw_ids().contains(id),
    {
        match self.find_device(id) {
            Some(i) => {
                proof {
                    assert(self.raw_ids()[i as int] == id);
                }
                Some(&self.devices[i].hid)
            },
            None => None,
        }
    }

    /// Drains the event queue, oldest first.
    pub fn take_events(&mut self) -> (r: Vec<RawInputEvent>)
        requires
            old(self).wf(),
        ensures
            final(self).wf(),
            r@.map_values(|e: RawInputEvent| event_view(e)) == old(self).events(),
            final(self).events().len() == 0,
            final(self).raw_ids() == old(self).raw_ids(),
            final(self).xinput_indices() == old(self).xinput_indices(),
    {
        let mut empty: Vec<RawInputEvent> = Vec::new();
        std::mem::swap(&mut self.event_queue, &mut empty);
        proof {
            assert(self.events() =~= Seq::<(DeviceId, bool)>::empty());
            assert(self.xinput_indices() =~= old(self).xinput_indices());
        }
        empty
    }
}


impl RawInputManager {
    /// The table entry of the open device `id`.
    pub open spec fn device_at(self, id: RawInputDeviceId) -> RawInputDeviceState {
        self.devices@[self.raw_ids().index_of(id)]
    }

    /// Where the table holds `id`, given that it does at index `i`.
    proof fn lemma_index_of(self, i: int, id: RawInputDeviceId)
        requires
            self.wf(),
            0 <= i < self.devices@.len(),
            self.devices@[i].id == id,
        ensures
            self.raw_ids().contains(id),
            self.raw_ids().index_of(id) == i,
    {
        assert(self.raw_ids()[i] == id);
        let c = self.raw_ids().index_of(id);
        assert(self.devices@[c].id == id);
        if c != i {
            if c < i {
                assert(self.devices@[c].id != self.devices@[i].id);
            } else {
                assert(self.devices@[i].id != self.devices@[c].id);
            }
        }
    }

    /// A device arrived and the caller tried to open it: `opened` is its
    /// parser and display name, `None` where opening failed (the arrival is
    /// then ignored). The device gets a table entry with that parser, its
    /// alternate-subsystem flag and a fresh transport holding the neutral
    /// record (an earlier entry of the same id is replaced). A device of the
    /// alternate subsystem makes the result ask for a scan of that
    /// subsystem; any other one is announced with an arrival event.
    pub fn handle_device_arrival(&mut self, device_id: RawInputDeviceId, opened: Option<(HidParser, String)>) -> (needs_scan: bool)
        requires
            old(self).wf(),
        ensures
            final(self).wf(),
            final(self).xinput_devices@ == old(self).xinput_devices@,
            opened is None ==> !needs_scan && final(self).events() == old(self).events() && final(self).devices@
                == old(self).devices@,
            opened is Some ==> needs_scan == ((opened->0).0.device_type == DeviceType::XInput) && final(self).events()
                == (if needs_scan {
                old(self).events()
            } else {
                old(self).events().push((DeviceId::RawInput(device_id), true))
            }) && exists|e: RawInputDeviceState|
                e.id == device_id && e.hid == (opened->0).0 && e.is_xinput == needs_scan && e.buffer.history()
                    == seq![neutral_inputs()] && final(self).devices@ == (if old(self).raw_ids().contains(device_id) {
                    old(self).devices@.update(old(self).raw_ids().index_of(device_id), e)
                } else {
                    old(self).devices@.push(e)
                }),
    {
        let (hid, device_name) = match opened {
            Some(x) => x,
            None => {
                return false;
            },
        };
        let is_xinput = hid.device_type == DeviceType::XInput;
        let default_inputs = DeviceInputs::default();
        let (write, read) = Publisher::new(&default_inputs);
        let device = RawInputDeviceState { id: device_id, buffer: write, hid, is_xinput };
        let ghost e = device;
        match self.find_device(device_id) {
            Some(i) => {
                proof {
                    old(self).lemma_index_of(i as int, device_id);
                }
                self.devices.set(i, device);
                proof {
                    assert(self.devices@ == old(self).devices@.update(i as int, e));
                    assert forall|a: int, b: int| 0 <= a < b < self.devices@.len() implies (#[trigger] self.devices@[a]).id != (#[trigger] self.devices@[b]).id by {
                        assert(old(self).devices@[a].id == self.devices@[a].id);
                        assert(old(self).devices@[b].id == self.devices@[b].id);
                    }
                }
            },
            None => {
                self.devices.push(device);
                proof {
                    assert(self.devices@ == old(self).devices@.push(e));
                    if old(self).raw_ids().contains(device_id) {
                        let j = choose|j: int| 0 <= j < old(self).raw_ids().len() && old(self).raw_ids()[j] == device_id;
                        assert(old(self).devices@[j].id == device_id);
                    }
                    assert forall|a: int, b: int| 0 <= a < b < self.devices@.len() implies (#[trigger] self.devices@[a]).id != (#[trigger] self.devices@[b]).id by {
                        if b == self.devices@.len() - 1 {
                            assert(old(self).raw_ids()[a] == self.devices@[a].id);
                        }
                    }
                }
            },
        }
        proof {
            assert(e.id == device_id && e.buffer.history() == seq![neutral_inputs()]);
        }
        if is_xinput {
            true
        } else {
            let ghost ev = self.events();
            let description = DeviceDescription { device_id: DeviceId::RawInput(device_id), device_name };
            self.event_queue.push(RawInputEvent::DeviceArrived(description, read));
            proof {
                assert(self.events() =~= ev.push((DeviceId::RawInput(device_id), true)));
            }
            false
        }
    }

    /// A device was removed. An unknown one is ignored; a known one loses
    /// its table entry, the others keeping theirs in order. A device of the
    /// alternate subsystem makes the result ask for a scan; any other one is
    /// announced with a removal event.
    pub fn handle_device_removal(&mut self, device_id: RawInputDeviceId) -> (needs_scan: bool)
        requires
            old(self).wf(),
        ensures
            final(self).wf(),
            final(self).xinput_devices@ == old(self).xinput_devices@,
            !final(self).raw_ids().contains(device_id),
            !old(self).raw_ids().contains(device_id) ==> !needs_scan && final(self).events() == old(self).events()
                && final(self).devices@ == old(self).devices@,
            old(self).raw_ids().contains(device_id) ==> needs_scan == old(self).device_at(device_id).is_xinput
                && final(self).devices@ == old(self).devices@.remove(old(self).raw_ids().index_of(device_id))
                && final(self).events() == (if needs_scan {
                old(self).events()
            } else {
                old(self).events().push((DeviceId::RawInput(device_id), false))
            }),
    {
        let i = match self.find_device(device_id) {
            Some(i) => i,
            None => {
                return false;
            },
        };
        let ghost ids = self.raw_ids();
        proof {
            old(self).lemma_index_of(i as int, device_id);
        }
        let is_xinput = self.devices[i].is_xinput;
        let _removed = self.devices.remove(i);
        proof {
            assert(self.raw_ids() =~= ids.remove(i as int));
            if self.raw_ids().contains(device_id) {
                let j = choose|j: int| 0 <= j < self.raw_ids().len() && self.raw_ids()[j] == device_id;
                if j < i {
                    assert(ids[j] == ids[i as int]);
                } else {
                    assert(ids[j + 1] == ids[i as int]);
                }
            }
        }
        if is_xinput {
            true
        } else {
            let ghost ev = self.events();
            self.event_queue.push(RawInputEvent::DeviceRemoved(DeviceId::RawInput(device_id)));
            proof {
                assert(self.events() =~= ev.push((DeviceId::RawInput(device_id), false)));
            }
            false
        }
    }

    /// An input message for `device_id`, with the readings of each report it
    /// carried. An unknown device is ignored. For a device of the alternate
    /// subsystem the result asks for a read of that subsystem's devices.
    /// Otherwise, where the readings fit the device's capabilities, the last
    /// report that decodes is handed to the device's transport, and nothing
    /// where none decodes.
    pub fn handle_device_input(&mut self, device_id: RawInputDeviceId, reports: &Vec<ReportReadings>) -> (needs_read: bool)
        requires
            old(self).wf(),
        ensures
            final(self).wf(),
            final(self).events() == old(self).events(),
            final(self).xinput_devices@ == old(self).xinput_devices@,
            final(self).raw_ids() == old(self).raw_ids(),
            needs_read == (old(self).raw_ids().contains(device_id) && (old(self).device_at(device_id).is_xinput
                || old(self).device_at(device_id).hid.device_type == DeviceType::XInput)),
            (!old(self).raw_ids().contains(device_id) || needs_read || !readings_fit(
                old(self).device_at(device_id).hid,
                reports@,
            ) || none_decoded(reports@)) ==> final(self).devices@ == old(self).devices@,
            (old(self).raw_ids().contains(device_id) && !needs_read && readings_fit(
                old(self).device_at(device_id).hid,
                reports@,
            ) && !none_decoded(reports@)) ==> ({
                let i = old(self).raw_ids().index_of(device_id);
                let e = final(self).devices@[i];
                let o = old(self).devices@[i];
                &&& final(self).devices@.len() == old(self).devices@.len()
                &&& forall|j: int| 0 <= j < old(self).devices@.len() && j != i ==> final(self).devices@[j] == old(self).devices@[j]
                &&& e.id == o.id && e.hid == o.hid && e.is_xinput == o.is_xinput
                &&& exists|d: DeviceInputs| is_last_decoded(o.hid, reports@, d) && e.buffer.history() == o.buffer.history().push(d)
            }),
    {
        let i = match self.find_device(device_id) {
            Some(i) => i,
            None => {
                return false;
            },
        };
        proof {
            old(self).lemma_index_of(i as int, device_id);
        }
        if self.devices[i].is_xinput || self.devices[i].hid.device_type == DeviceType::XInput {
            return true;
        }
        let mut k: usize = 0;
        let caps = self.devices[i].hid.value_caps.len();
        while k < reports.len()
            invariant
                k <= reports@.len(),
                i < self.devices@.len(),
                old(self).raw_ids().contains(device_id),
                old(self).raw_ids().index_of(device_id) == i,
                !self.devices@[i as int].is_xinput,
                self.devices@[i as int].hid.device_type != DeviceType::XInput,
                self.wf(),
                self.devices@ == old(self).devices@,
                self.xinput_devices@ == old(self).xinput_devices@,
                self.events() == old(self).events(),
                caps == self.devices@[i as int].hid.value_caps@.len(),
                forall|j: int| 0 <= j < k ==> (#[trigger] reports@[j]).values@.len() == caps,
            decreases reports@.len() - k,
        {
            if reports[k].values.len() != caps {
                // Readings that do not match the capabilities are dropped.
                return false;
            }
            k = k + 1;
        }
        let ghost ids = self.raw_ids();
        proof {
            assert(readings_fit(self.devices@[i as int].hid, reports@));
        }
        match decode_reports(&self.devices[i].hid, reports) {
            Some(inputs) => {
                self.devices[i].buffer.write(inputs);
                proof {
                    assert(self.raw_ids() =~= ids);
                    let o = old(self).devices@[i as int];
                    assert(is_last_decoded(o.hid, reports@, inputs));
                    assert(self.devices@[i as int].buffer.history() == o.buffer.history().push(inputs));
                    assert(self.devices@[i as int].id == o.id && self.devices@[i as int].hid == o.hid);
                    assert(forall|j: int| 0 <= j < old(self).devices@.len() && j != i ==> self.devices@[j] == old(self).devices@[j]);
                }
            },
            None => {},
        }
        false
    }

    /// The indices of the connected alternate-subsystem devices, in table order.
    pub fn xinput_device_ids(&self) -> (r: Vec<XInputDeviceId>)
        ensures
            r@.len() == self.xinput_devices@.len(),
            forall|k: int| 0 <= k < r@.len() ==> #[trigger] r@[k] == self.xinput_devices@[k].id,
    {
        let mut r: Vec<XInputDeviceId> = Vec::new();
        let mut k: usize = 0;
        while k < self.xinput_devices.len()
            invariant
                k <= self.xinput_devices@.len(),
                r@.len() == k,
                forall|j: int| 0 <= j < k ==> #[trigger] r@[j] == self.xinput_devices@[j].id,
            decreases self.xinput_devices@.len() - k,
        {
            r.push(self.xinput_devices[k].id);
            k = k + 1;
        }
        r
    }

    /// Hands a fresh state to each connected alternate-subsystem device:
    /// `reads[k]` belongs to the `k`-th one in table order, and a device that
    /// read nothing is left as it is. The result asks for a scan where some
    /// device read nothing (or the reads do not match the table, which is then
    /// left as it is).
    pub fn read_xinput(&mut self, reads: &Vec<Option<DeviceInputs>>) -> (needs_scan: bool)
        requires
            old(self).wf(),
        ensures
            final(self).wf(),
            final(self).events() == old(self).events(),
            final(self).devices@ == old(self).devices@,
            final(self).xinput_indices() == old(self).xinput_indices(),
            final(self).xinput_devices@.len() == old(self).xinput_devices@.len(),
            reads@.len() != old(self).xinput_devices@.len() ==> needs_scan && final(self).xinput_devices@
                == old(self).xinput_devices@,
            reads@.len() == old(self).xinput_devices@.len() ==> (needs_scan == exists|k: int|
                0 <= k < reads@.len() && #[trigger] reads@[k] is None) && forall|k: int|
                0 <= k < reads@.len() ==> (#[trigger] final(self).xinput_devices@[k]).id == old(self).xinput_devices@[k].id
                    && (reads@[k] is None ==> final(self).xinput_devices@[k] == old(self).xinput_devices@[k])
                    && (reads@[k] is Some ==> final(self).xinput_devices@[k].buffer.history()
                    == old(self).xinput_devices@[k].buffer.history().push(reads@[k]->0)),
    {
        if reads.len() != self.xinput_devices.len() {
            return true;
        }
        let ghost xi = self.xinput_indices();
        let mut need_scan = false;
        let mut k: usize = 0;
        while k < reads.len()
            invariant
                k <= reads@.len(),
                reads@.len() == self.xinput_devices@.len(),
                reads@.len() == old(self).xinput_devices@.len(),
                self.wf(),
                self.events() == old(self).events(),
                self.devices@ == old(self).devices@,
                self.xinput_indices() == xi,
                xi == old(self).xinput_indices(),
                forall|j: int| 0 <= j < self.xinput_devices@.len() ==> (#[trigger] self.xinput_devices@[j]).id == old(self).xinput_devices@[j].id,
                forall|j: int| k <= j < self.xinput_devices@.len() ==> (#[trigger] self.xinput_devices@[j]) == old(self).xinput_devices@[j],
                forall|j: int| 0 <= j < k ==> (#[trigger] reads@[j] is None ==> self.xinput_devices@[j] == old(self).xinput_devices@[j])
                    && (reads@[j] is Some ==> self.xinput_devices@[j].buffer.history()
                    == old(self).xinput_devices@[j].buffer.history().push(reads@[j]->0)),
                need_scan == exists|j: int| 0 <= j < k && #[trigger] reads@[j] is None,
            decreases reads@.len() - k,
        {
            match reads[k] {
                Some(inputs) => {
                    let ghost before = *self;
                    self.xinput_devices[k].buffer.write(inputs);
                    proof {
                        assert forall|j: int| 0 <= j < self.xinput_devices@.len() implies (#[trigger] self.xinput_devices@[j]).id == before.xinput_devices@[j].id by {}
                        lemma_same_xinput_ids(before, *self);
                    }
                },
                None => {
                    need_scan = true;
                },
            }
            k = k + 1;
        }
        need_scan
    }
}

/// Which of the alternate subsystem's indices read a state.
pub open spec fn present_of(reads: Seq<Option<DeviceInputs>>) -> Seq<bool> {
    reads.map_values(|r: Option<DeviceInputs>| r is Some)
}

proof fn lemma_killed_upto(known: Set<usize>, present: Seq<bool>, n: int)
    requires
        0 <= n <= present.len() <= XINPUT_SLOTS,
    ensures
        forall|i: usize| #[trigger] killed_upto(known, present, n).contains(i) <==> (i < n && known.contains(i) && !present[i as int]),
        forall|a: int, b: int| 0 <= a < b < killed_upto(known, present, n).len() ==> killed_upto(known, present, n)[a] < killed_upto(known, present, n)[b],
        forall|a: int| 0 <= a < killed_upto(known, present, n).len() ==> killed_upto(known, present, n)[a] < n,
    decreases n,
{
    if n > 0 {
        lemma_killed_upto(known, present, n - 1);
        let s = killed_upto(known, present, n - 1);
        let t = killed_upto(known, present, n);
        let last = (n - 1) as usize;
        assert forall|i: usize| #[trigger] t.contains(i) <==> (i < n && known.contains(i) && !present[i as int]) by {
            if t.contains(i) {
                let k = choose|k: int| 0 <= k < t.len() && #[trigger] t[k] == i;
                if k < s.len() {
                    assert(s[k] == i);
                    assert(s.contains(i));
                } else {
                    assert(i == last);
                }
            }
            if i < n && known.contains(i) && !present[i as int] {
                if i < last {
                    assert(s.contains(i));
                    let k = choose|k: int| 0 <= k < s.len() && #[trigger] s[k] == i;
                    assert(t[k] == i);
                } else {
                    assert(t[t.len() - 1] == i);
                }
            }
        }
        assert forall|a: int, b: int| 0 <= a < b < t.len() implies t[a] < t[b] by {
            if b < s.len() {
                assert(s[a] < s[b]);
            } else {
                assert(t[a] == s[a]);
            }
        }
        assert forall|a: int| 0 <= a < t.len() implies t[a] < n by {
            if a < s.len() {
                assert(t[a] == s[a]);
            }
        }
    }
}

proof fn lemma_new_upto(known: Set<usize>, present: Seq<bool>, n: int)
    requires
        0 <= n <= present.len() <= XINPUT_SLOTS,
    ensures
        forall|i: usize| #[trigger] new_upto(known, present, n).contains(i) <==> (i < n && !known.contains(i) && present[i as int]),
        forall|a: int, b: int| 0 <= a < b < new_upto(known, present, n).len() ==> new_upto(known, present, n)[a] < new_upto(known, present, n)[b],
        forall|a: int| 0 <= a < new_upto(known, present, n).len() ==> new_upto(known, present, n)[a] < n,
    decreases n,
{
    if n > 0 {
        lemma_new_upto(known, present, n - 1);
        let s = new_upto(known, present, n - 1);
        let t = new_upto(known, present, n);
        let last = (n - 1) as usize;
        assert forall|i: usize| #[trigger] t.contains(i) <==> (i < n && !known.contains(i) && present[i as int]) by {
            if t.contains(i) {
                let k = choose|k: int| 0 <= k < t.len() && #[trigger] t[k] == i;
                if k < s.len() {
                    assert(s[k] == i);
                    assert(s.contains(i));
                } else {
                    assert(i == last);
                }
            }
            if i < n && !known.contains(i) && present[i as int] {
                if i < last {
                    assert(s.contains(i));
                    let k = choose|k: int| 0 <= k < s.len() && #[trigger] s[k] == i;
                    assert(t[k] == i);
                } else {
                    assert(t[t.len() - 1] == i);
                }
            }
        }
        assert forall|a: int, b: int| 0 <= a < b < t.len() implies t[a] < t[b] by {
            if b < s.len() {
                assert(s[a] < s[b]);
            } else {
                assert(t[a] == s[a]);
            }
        }
        assert forall|a: int| 0 <= a < t.len() implies t[a] < n by {
            if a < s.len() {
                assert(t[a] == s[a]);
            }
        }
    }
}

impl RawInputManager {
    /// The history of the transport of the connected alternate-subsystem
    /// device at index `i`.
    pub open spec fn xinput_history(self, i: usize) -> Seq<DeviceInputs> {
        self.xinput_devices@[choose|k: int| 0 <= k < self.xinput_devices@.len() && (#[trigger] self.xinput_devices@[k]).id.0 == i].buffer.history()
    }

    /// Whether alternate-subsystem index `i` is connected.
    pub fn knows_xinput(&self, i: usize) -> (r: bool)
        ensures
            r == self.xinput_indices().contains(i),
    {
        let mut k: usize = 0;
        while k < self.xinput_devices.len()
            invariant
                k <= self.xinput_devices@.len(),
                forall|j: int| 0 <= j < k ==> (#[trigger] self.xinput_devices@[j]).id.0 != i,
            decreases self.xinput_devices@.len() - k,
        {
            if self.xinput_devices[k].id.0 == i {
                return true;
            }
            k = k + 1;
        }
        false
    }

    /// Compares what each index of the alternate subsystem read (`reads[i]`
    /// for index `i`) with the connected devices: a known index that read
    /// nothing is removed, an unknown one that read a state is added with a
    /// fresh transport. A removal event for each removed index, then an
    /// arrival event for each added one, each in index order, join the queue.
    /// Every connected device then gets its fresh state published.
    #[verifier::rlimit(40)]
    pub fn scan_xinput(&mut self, reads: &Vec<Option<DeviceInputs>>)
        requires
            old(self).wf(),
            reads@.len() == XINPUT_SLOTS,
        ensures
            final(self).wf(),
            final(self).devices@ == old(self).devices@,
            forall|i: usize| #[trigger] final(self).xinput_indices().contains(i) <==> (i < XINPUT_SLOTS && reads@[i as int] is Some),
            forall|k: int|
                0 <= k < final(self).xinput_devices@.len() ==> ({
                    let i = (#[trigger] final(self).xinput_devices@[k]).id.0;
                    &&& reads@[i as int] is Some
                    &&& final(self).xinput_devices@[k].buffer.history() == (if old(self).xinput_indices().contains(i) {
                        old(self).xinput_history(i)
                    } else {
                        seq![neutral_inputs()]
                    }).push(reads@[i as int]->0)
                }),
            final(self).events() == old(self).events() + removal_views(
                killed_upto(old(self).xinput_indices(), present_of(reads@), XINPUT_SLOTS as int),
            ) + arrival_views(new_upto(old(self).xinput_indices(), present_of(reads@), XINPUT_SLOTS as int)),
    {
        let ghost known = self.xinput_indices();
        let ghost present = present_of(reads@);
        let mut killed: Vec<usize> = Vec::new();
        let mut new: Vec<usize> = Vec::new();
        let mut i: usize = 0;
        while i < XINPUT_SLOTS
            invariant
                i <= XINPUT_SLOTS,
                reads@.len() == XINPUT_SLOTS,
                present == present_of(reads@),
                known == self.xinput_indices(),
                known == old(self).xinput_indices(),
                self.wf(),
                self.xinput_devices@ == old(self).xinput_devices@,
                self.raw_ids() == old(self).raw_ids(),
                self.events() == old(self).events(),
                killed@ == killed_upto(known, present, i as int),
                new@ == new_upto(known, present, i as int),
            decreases XINPUT_SLOTS - i,
        {
            let is_known = self.knows_xinput(i);
            let exists = reads[i].is_some();
            if is_known && !exists {
                killed.push(i);
            }
            if !is_known && exists {
                new.push(i);
            }
            i = i + 1;
        }
        proof {
            lemma_killed_upto(known, present, XINPUT_SLOTS as int);
            lemma_new_upto(known, present, XINPUT_SLOTS as int);
        }
        let ghost ev0 = self.events();
        let mut k: usize = 0;
        while k < killed.len()
            invariant
                k <= killed@.len(),
                self.wf(),
                self.xinput_devices@ == old(self).xinput_devices@,
                self.raw_ids() == old(self).raw_ids(),
                self.devices@ == old(self).devices@,
                self.events() == ev0 + removal_views(killed@.subrange(0, k as int)),
            decreases killed@.len() - k,
        {
            let ghost ev = self.events();
            self.event_queue.push(RawInputEvent::DeviceRemoved(DeviceId::XInput(XInputDeviceId(killed[k]))));
            proof {
                assert(killed@.subrange(0, k + 1) =~= killed@.subrange(0, k as int).push(killed@[k as int]));
                assert(self.events() =~= ev.push((DeviceId::XInput(XInputDeviceId(killed@[k as int])), false)));
                assert(removal_views(killed@.subrange(0, k + 1)) =~= removal_views(killed@.subrange(0, k as int)).push(
                    (DeviceId::XInput(XInputDeviceId(killed@[k as int])), false)));
                assert(self.events() =~= ev0 + removal_views(killed@.subrange(0, k + 1)));
            }
            k = k + 1;
        }
        proof {
            assert(killed@.subrange(0, killed@.len() as int) =~= killed@);
        }
        // Keep the devices that still read a state.
        let ghost orig = self.xinput_devices@;
        let ghost raw = self.raw_ids();
        let mut rest: Vec<XInputDeviceState> = Vec::new();
        std::mem::swap(&mut self.xinput_devices, &mut rest);
        let ghost mut consumed: int = 0;
        while rest.len() > 0
            invariant
                0 <= consumed,
                consumed + rest@.len() == orig.len(),
                forall|j: int| 0 <= j < rest@.len() ==> #[trigger] rest@[j] == orig[consumed + j],
                forall|a: int, b: int| 0 <= a < b < orig.len() ==> (#[trigger] orig[a]).id != (#[trigger] orig[b]).id,
                forall|a: int| 0 <= a < orig.len() ==> (#[trigger] orig[a]).id.0 < XINPUT_SLOTS,
                reads@.len() == XINPUT_SLOTS,
                self.raw_ids() == raw,
                self.devices@.len() == raw.len(),
                forall|a: int, b: int| 0 <= a < b < self.devices@.len() ==> (#[trigger] self.devices@[a]).id != (#[trigger] self.devices@[b]).id,
                forall|a: int| 0 <= a < self.xinput_devices@.len() ==> (#[trigger] self.xinput_devices@[a]).id.0 < XINPUT_SLOTS,
                forall|a: int, b: int|
                    0 <= a < b < self.xinput_devices@.len() ==> (#[trigger] self.xinput_devices@[a]).id != (#[trigger] self.xinput_devices@[b]).id,
                forall|a: int, j: int|
                    0 <= a < self.xinput_devices@.len() && consumed <= j < orig.len() ==> (#[trigger] self.xinput_devices@[a]).id != (#[trigger] orig[j]).id,
                forall|x: usize| #[trigger] self.xinput_indices().contains(x) <==> (exists|j: int| 0 <= j < consumed && (#[trigger] orig[j]).id.0 == x) && x < XINPUT_SLOTS && reads@[x as int] is Some,
                forall|a: int| 0 <= a < self.xinput_devices@.len() ==> exists|j: int| 0 <= j < consumed && #[trigger] self.xinput_devices@[a] == orig[j],
                self.devices@ == old(self).devices@,
                orig == old(self).xinput_devices@,
                self.events() == ev0 + removal_views(killed@),
            decreases rest@.len(),
        {
            let ghost before = self.xinput_devices@;
            let ghost rb = rest@;
            let d = rest.remove(0);
            proof {
                assert(d == orig[consumed as int]);
                assert forall|j: int| 0 <= j < rest@.len() implies #[trigger] rest@[j] == orig[consumed + 1 + j] by {
                    assert(rest@[j] == rb[j + 1]);
                }
            }
            let ghost bs = *self;
            proof {
                assert(orig[consumed].id.0 < XINPUT_SLOTS);
            }
            if reads[d.id.0].is_some() {
                self.xinput_devices.push(d);
                proof {
                    assert forall|a: int| 0 <= a < self.xinput_devices@.len() implies exists|j: int| 0 <= j < consumed + 1 && #[trigger] self.xinput_devices@[a] == orig[j] by {
                        if a < before.len() {
                            assert(self.xinput_devices@[a] == bs.xinput_devices@[a]);
                            let j = choose|j: int| 0 <= j < consumed && bs.xinput_devices@[a] == orig[j];
                            assert(0 <= j < consumed + 1 && self.xinput_devices@[a] == orig[j]);
                        } else {
                            assert(self.xinput_devices@[a] == orig[consumed]);
                        }
                    }
                    assert forall|x: usize| #[trigger] self.xinput_indices().contains(x) <==> (exists|j: int| 0 <= j < consumed + 1 && (#[trigger] orig[j]).id.0 == x) && x < XINPUT_SLOTS && reads@[x as int] is Some by {
                        if self.xinput_indices().contains(x) {
                            let a = choose|a: int| 0 <= a < self.xinput_devices@.len() && (#[trigger] self.xinput_devices@[a]).id.0 == x;
                            if a < before.len() {
                                assert(before[a] == self.xinput_devices@[a]);
                                assert(bs.xinput_devices@[a].id.0 == x);
                                assert(bs.xinput_indices().contains(x));
                                let j = choose|j: int| 0 <= j < consumed && (#[trigger] orig[j]).id.0 == x;
                                assert(0 <= j < consumed + 1 && orig[j].id.0 == x);
                            } else {
                                assert(orig[consumed].id.0 == x);
                                assert(0 <= consumed < consumed + 1);
                            }
                        }
                        if (exists|j: int| 0 <= j < consumed + 1 && (#[trigger] orig[j]).id.0 == x) && x < XINPUT_SLOTS && reads@[x as int] is Some {
                            let j = choose|j: int| 0 <= j < consumed + 1 && (#[trigger] orig[j]).id.0 == x;
                            if j < consumed {
                                assert(bs.xinput_indices().contains(x));
                                let a = choose|a: int| 0 <= a < bs.xinput_devices@.len() && (#[trigger] bs.xinput_devices@[a]).id.0 == x;
                                assert(self.xinput_devices@[a] == before[a]);
                            } else {
                                assert(self.xinput_devices@[before.len() as int].id.0 == x);
                            }
                        }
                    }
                }
            } else {
                proof {
                    assert forall|a: int| 0 <= a < self.xinput_devices@.len() implies exists|j: int| 0 <= j < consumed + 1 && #[trigger] self.xinput_devices@[a] == orig[j] by {
                        let j = choose|j: int| 0 <= j < consumed && self.xinput_devices@[a] == orig[j];
                        assert(0 <= j < consumed + 1 && self.xinput_devices@[a] == orig[j]);
                    }
                    assert forall|x: usize| #[trigger] self.xinput_indices().contains(x) <==> (exists|j: int| 0 <= j < consumed + 1 && (#[trigger] orig[j]).id.0 == x) && x < XINPUT_SLOTS && reads@[x as int] is Some by {
                        if (exists|j: int| 0 <= j < consumed + 1 && (#[trigger] orig[j]).id.0 == x) && x < XINPUT_SLOTS && reads@[x as int] is Some {
                            let j = choose|j: int| 0 <= j < consumed + 1 && (#[trigger] orig[j]).id.0 == x;
                            assert(j < consumed);
                            assert(bs.xinput_indices().contains(x));
                        }
                        if self.xinput_indices().contains(x) {
                            assert(bs.xinput_indices().contains(x));
                            let j = choose|j: int| 0 <= j < consumed && (#[trigger] orig[j]).id.0 == x;
                            assert(0 <= j < consumed + 1 && orig[j].id.0 == x);
                        }
                    }
                }
            }
            proof {
                consumed = consumed + 1;
            }
        }
        proof {
            assert forall|x: usize| #[trigger] self.xinput_indices().contains(x) <==> (known.contains(x) && x < XINPUT_SLOTS && reads@[x as int] is Some) by {
                if known.contains(x) {
                    let k = choose|k: int| 0 <= k < orig.len() && (#[trigger] orig[k]).id.0 == x;
                    assert(orig[k].id.0 == x);
                }
                if (exists|j: int| 0 <= j < consumed && (#[trigger] orig[j]).id.0 == x) {
                    let j = choose|j: int| 0 <= j < consumed && (#[trigger] orig[j]).id.0 == x;
                    assert(known.contains(x));
                }
            }
            assert forall|a: int, j: int| 0 <= a < self.xinput_devices@.len() && 0 <= j < new@.len() implies (#[trigger] self.xinput_devices@[a]).id.0 != #[trigger] new@[j] by {
                let x = self.xinput_devices@[a].id.0;
                assert(self.xinput_indices().contains(x));
                assert(new@.contains(new@[j]));
            }
            assert(new@.subrange(0, 0) =~= Seq::<usize>::empty());
            assert(self.events() =~= self.events() + arrival_views(new@.subrange(0, 0)));
        }
        // Add the devices that came.
        let ghost ev1 = self.events();
        let mut m: usize = 0;
        while m < new.len()
            invariant
                m <= new@.len(),
                forall|a: int, b: int| 0 <= a < b < new@.len() ==> new@[a] < new@[b],
                forall|x: usize| #[trigger] new@.contains(x) <==> (x < XINPUT_SLOTS && !known.contains(x) && present[x as int]),
                present == present_of(reads@),
                reads@.len() == XINPUT_SLOTS,
                self.raw_ids() == raw,
                forall|a: int, b: int| 0 <= a < b < self.devices@.len() ==> (#[trigger] self.devices@[a]).id != (#[trigger] self.devices@[b]).id,
                forall|a: int| 0 <= a < self.xinput_devices@.len() ==> (#[trigger] self.xinput_devices@[a]).id.0 < XINPUT_SLOTS,
                forall|a: int, b: int|
                    0 <= a < b < self.xinput_devices@.len() ==> (#[trigger] self.xinput_devices@[a]).id != (#[trigger] self.xinput_devices@[b]).id,
                forall|a: int, j: int| 0 <= a < self.xinput_devices@.len() && m <= j < new@.len() ==> (#[trigger] self.xinput_devices@[a]).id.0 != #[trigger] new@[j],
                forall|x: usize| #[trigger] self.xinput_indices().contains(x) <==> ((known.contains(x) || new@.subrange(0, m as int).contains(x)) && x < XINPUT_SLOTS && reads@[x as int] is Some),
                forall|a: int|
                    0 <= a < self.xinput_devices@.len() ==> (exists|j: int| 0 <= j < orig.len() && #[trigger] self.xinput_devices@[a] == orig[j])
                        || (self.xinput_devices@[a].buffer.history() == seq![neutral_inputs()] && !known.contains(self.xinput_devices@[a].id.0)),
                self.devices@ == old(self).devices@,
                orig == old(self).xinput_devices@,
                known == old(self).xinput_indices(),
                self.events() == ev1 + arrival_views(new@.subrange(0, m as int)),
            decreases new@.len() - m,
        {
            let idx = new[m];
            proof {
                assert(new@.contains(idx));
            }
            let (write, read) = Publisher::new(&DeviceInputs::default());
            let id = XInputDeviceId(idx);
            let ghost before = self.xinput_devices@;
            let ghost bs = *self;
            self.xinput_devices.push(XInputDeviceState { id, buffer: write });
            proof {
                assert(!known.contains(idx));
                assert forall|a: int|
                    0 <= a < self.xinput_devices@.len() implies (exists|j: int| 0 <= j < orig.len() && #[trigger] self.xinput_devices@[a] == orig[j])
                        || (self.xinput_devices@[a].buffer.history() == seq![neutral_inputs()] && !known.contains(self.xinput_devices@[a].id.0)) by {
                    if a < before.len() {
                        assert(self.xinput_devices@[a] == bs.xinput_devices@[a]);
                    }
                }
            }
            let ghost ev = self.events();
            let description = DeviceDescription { device_id: DeviceId::XInput(id), device_name: xinput_device_name(idx) };
            self.event_queue.push(RawInputEvent::DeviceArrived(description, read));
            proof {
                assert(self.events() =~= ev.push((DeviceId::XInput(id), true)));
                assert(new@.subrange(0, m + 1) =~= new@.subrange(0, m as int).push(idx));
                assert(arrival_views(new@.subrange(0, m + 1)) =~= arrival_views(new@.subrange(0, m as int)).push((DeviceId::XInput(id), true)));
                assert(self.events() =~= ev1 + arrival_views(new@.subrange(0, m + 1)));
                assert forall|a: int, j: int| 0 <= a < self.xinput_devices@.len() && m + 1 <= j < new@.len() implies (#[trigger] self.xinput_devices@[a]).id.0 != #[trigger] new@[j] by {
                    if a < before.len() {
                        assert(self.xinput_devices@[a] == before[a]);
                    }
                }
                assert forall|a: int, b: int| 0 <= a < b < self.xinput_devices@.len() implies (#[trigger] self.xinput_devices@[a]).id != (#[trigger] self.xinput_devices@[b]).id by {
                    if b == before.len() {
                        assert(before[a].id.0 != new@[m as int]);
                    } else {
                        assert(self.xinput_devices@[a] == before[a]);
                        assert(self.xinput_devices@[b] == before[b]);
                    }
                }
                assert forall|x: usize| #[trigger] self.xinput_indices().contains(x) <==> ((known.contains(x) || new@.subrange(0, m + 1).contains(x)) && x < XINPUT_SLOTS && reads@[x as int] is Some) by {
                    let s0 = new@.subrange(0, m as int);
                    if s0.contains(x) {
                        let k = choose|k: int| 0 <= k < s0.len() && #[trigger] s0[k] == x;
                        assert(new@.subrange(0, m + 1)[k] == x);
                    }
                    if new@.subrange(0, m + 1).contains(x) && x != idx {
                        let k = choose|k: int| 0 <= k < m + 1 && #[trigger] new@.subrange(0, m + 1)[k] == x;
                        assert(s0[k] == x);
                    }
                    if x == idx {
                        assert(new@.subrange(0, m + 1)[m as int] == x);
                        assert(self.xinput_devices@[before.len() as int].id.0 == x);
                    }
                    if self.xinput_indices().contains(x) {
                        let a = choose|a: int| 0 <= a < self.xinput_devices@.len() && (#[trigger] self.xinput_devices@[a]).id.0 == x;
                        if a < before.len() {
                            assert(before[a] == self.xinput_devices@[a]);
                            assert(bs.xinput_devices@[a].id.0 == x);
                            assert(bs.xinput_indices().contains(x));
                        }
                    }
                    if (known.contains(x) || s0.contains(x)) && x < XINPUT_SLOTS && reads@[x as int] is Some {
                        assert(bs.xinput_indices().contains(x));
                        let a = choose|a: int| 0 <= a < bs.xinput_devices@.len() && (#[trigger] bs.xinput_devices@[a]).id.0 == x;
                        assert(self.xinput_devices@[a] == before[a]);
                    }
                }
            }
            m = m + 1;
        }
        proof {
            assert(new@.subrange(0, new@.len() as int) =~= new@);
        }
        // Publish the fresh states.
        let ghost table = self.xinput_devices@;
        let ghost added = *self;
        let ghost ev2 = self.events();
        proof {
            assert forall|a: int| 0 <= a < table.len() implies #[trigger] reads@[table[a].id.0 as int] is Some by {
                assert(added.xinput_devices@[a] == table[a]);
                assert(added.xinput_indices().contains(table[a].id.0));
            }
        }
        let mut q: usize = 0;
        while q < self.xinput_devices.len()
            invariant
                q <= self.xinput_devices@.len(),
                reads@.len() == XINPUT_SLOTS,
                self.xinput_devices@.len() == table.len(),
                forall|j: int| 0 <= j < table.len() ==> (#[trigger] self.xinput_devices@[j]).id == table[j].id,
                forall|a: int| 0 <= a < table.len() ==> (#[trigger] table[a]).id.0 < XINPUT_SLOTS,
                forall|a: int| 0 <= a < table.len() ==> #[trigger] reads@[table[a].id.0 as int] is Some,
                forall|a: int| q <= a < table.len() ==> #[trigger] self.xinput_devices@[a] == table[a],
                forall|a: int|
                    0 <= a < q ==> (#[trigger] self.xinput_devices@[a]).buffer.history() == table[a].buffer.history().push(
                        reads@[table[a].id.0 as int]->0,
                    ),
                self.devices@ == old(self).devices@,
                self.events() == ev2,
            decreases table.len() - q,
        {
            let slot = self.xinput_devices[q].id.0;
            match reads[slot] {
                Some(inputs) => {
                    self.xinput_devices[q].buffer.write(inputs);
                },
                None => {},
            }
            q = q + 1;
        }
        proof {
            let fin = *self;
            assert forall|k: int| 0 <= k < fin.xinput_devices@.len() implies ({
                let i = (#[trigger] fin.xinput_devices@[k]).id.0;
                &&& reads@[i as int] is Some
                &&& fin.xinput_devices@[k].buffer.history() == (if old(self).xinput_indices().contains(i) {
                    old(self).xinput_history(i)
                } else {
                    seq![neutral_inputs()]
                }).push(reads@[i as int]->0)
            }) by {
                let i = table[k].id.0;
                assert(fin.xinput_devices@[k].id == table[k].id);
                if exists|j: int| 0 <= j < orig.len() && #[trigger] table[k] == orig[j] {
                    let j = choose|j: int| 0 <= j < orig.len() && #[trigger] table[k] == orig[j];
                    assert(old(self).xinput_devices@[j].id.0 == i);
                    assert(old(self).xinput_indices().contains(i));
                    let c = choose|c: int| 0 <= c < old(self).xinput_devices@.len() && (#[trigger] old(self).xinput_devices@[c]).id.0 == i;
                    if c != j {
                        if c < j {
                            assert(orig[c].id != orig[j].id);
                        } else {
                            assert(orig[j].id != orig[c].id);
                        }
                    }
                    assert(old(self).xinput_history(i) == table[k].buffer.history());
                } else {
                    assert(added.xinput_devices@[k] == table[k]);
                }
            }
        }
        proof {
            let fin = *self;
            assert forall|a: int, b: int| 0 <= a < b < fin.xinput_devices@.len() implies (#[trigger] fin.xinput_devices@[a]).id != (#[trigger] fin.xinput_devices@[b]).id by {
                assert(table[a].id != table[b].id);
            }
            assert forall|j: int| 0 <= j < table.len() implies (#[trigger] fin.xinput_devices@[j]).id.0 < XINPUT_SLOTS by {
                assert(table[j].id.0 < XINPUT_SLOTS);
            }
            assert forall|x: usize| #[trigger] fin.xinput_indices().contains(x) <==> (x < XINPUT_SLOTS && reads@[x as int] is Some) by {
                if fin.xinput_indices().contains(x) {
                    let a = choose|a: int| 0 <= a < fin.xinput_devices@.len() && (#[trigger] fin.xinput_devices@[a]).id.0 == x;
                    assert(table[a].id.0 == x);
                    assert(added.xinput_devices@[a].id.0 == x);
                    assert(added.xinput_indices().contains(x));
                }
                if x < XINPUT_SLOTS && reads@[x as int] is Some {
                    if !known.contains(x) {
                        assert(present[x as int]);
                        assert(new@.contains(x));
                    }
                    assert(added.xinput_indices().contains(x));
                    let a = choose|a: int| 0 <= a < table.len() && (#[trigger] table[a]).id.0 == x;
                    assert(fin.xinput_devices@[a].id.0 == x);
                }
            }
        }
    }
}

/// The display name of alternate-subsystem index `i`.
fn xinput_device_name(i: usize) -> (r: String)
    requires
        i < XINPUT_SLOTS,
{
    if i == 0 {
        "XInputDeviceId(0)".to_owned()
    } else if i == 1 {
        "XInputDeviceId(1)".to_owned()
    } else if i == 2 {
        "XInputDeviceId(2)".to_owned()
    } else {
        "XInputDeviceId(3)".to_owned()
    }
}

/// Two tables with the same alternate-subsystem entries, in the same order,
/// connect the same indices.
proof fn lemma_same_xinput_ids(a: RawInputManager, b: RawInputManager)
    requires
        a.xinput_devices@.len() == b.xinput_devices@.len(),
        forall|j: int| 0 <= j < a.xinput_devices@.len() ==> (#[trigger] a.xinput_devices@[j]).id == b.xinput_devices@[j].id,
    ensures
        a.xinput_indices() == b.xinput_indices(),
{
    assert forall|i: usize| a.xinput_indices().contains(i) == b.xinput_indices().contains(i) by {
        if a.xinput_indices().contains(i) {
            let k = choose|k: int| 0 <= k < a.xinput_devices@.len() && (#[trigger] a.xinput_devices@[k]).id.0 == i;
            assert(b.xinput_devices@[k].id.0 == i);
        }
        if b.xinput_indices().contains(i) {
            let k = choose|k: int| 0 <= k < b.xinput_devices@.len() && (#[trigger] b.xinput_devices@[k]).id.0 == i;
            assert(a.xinput_devices@[k].id.0 == i);
        }
    }
    assert(a.xinput_indices() =~= b.xinput_indices());
}

} // verus!
