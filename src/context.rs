//! The binding engine: a fixed number of virtual slots bound to the connected
//! physical devices, newest device first.
use vstd::prelude::*;

use crate::input::{DeviceId, RawInputEvent};
use crate::transport::read_latest;
use crate::types::{neutral_inputs, DeviceInputs};

verus! {

/// A virtual slot: the record last copied into it and the device it follows.
#[derive(Clone, Copy, Debug)]
pub struct VirtualDeviceState {
    pub inputs: DeviceInputs,
    pub binding: Option<DeviceId>,
}

/// The index of a virtual slot.
#[derive(Clone, Copy, Debug, PartialEq, Eq, Structural)]
pub struct VirtualDeviceId(pub usize);

/// A connected device, as the registry holds it.
pub struct RealDeviceState {
    pub id: DeviceId,
    pub name: String,
    pub buffer: triple_buffer::Output<DeviceInputs>,
    pub binding: Option<VirtualDeviceId>,
}

/// No identity occurs twice in `ids`.
pub open spec fn unique_ids(ids: Seq<DeviceId>) -> bool {
    forall|a: int, b: int| 0 <= a < b < ids.len() ==> ids[a] != ids[b]
}

/// The device that slot `i` follows when the registry holds `ids`: the
/// `i`-th newest one, if there are that many.
pub open spec fn slot_policy(ids: Seq<DeviceId>, i: int) -> Option<DeviceId> {
    if 0 <= i < ids.len() {
        Some(ids[ids.len() - 1 - i])
    } else {
        None
    }
}

/// The slot that registry entry `j` of `k` is bound to when there are `n` slots.
pub open spec fn back_policy(k: int, n: int, j: int) -> Option<VirtualDeviceId> {
    if k - 1 - j < n {
        Some(VirtualDeviceId((k - 1 - j) as usize))
    } else {
        None
    }
}

/// A registry entry as `(identity, display name)`.
pub type Named = (DeviceId, Seq<char>);

/// Some entry of `s` has identity `id`.
pub open spec fn has_id(s: Seq<Named>, id: DeviceId) -> bool {
    exists|k: int| 0 <= k < s.len() && (#[trigger] s[k]).0 == id
}

/// An index at which `s` has identity `id`.
pub open spec fn index_of_id(s: Seq<Named>, id: DeviceId) -> int {
    choose|k: int| 0 <= k < s.len() && (#[trigger] s[k]).0 == id
}

/// The display name that an arrival event carries.
pub open spec fn event_name(e: RawInputEvent) -> Seq<char> {
    match e {
        RawInputEvent::DeviceArrived(d, _) => d.device_name@,
        RawInputEvent::DeviceRemoved(_) => Seq::empty(),
    }
}

/// The registry after one event: an arrival appends a new identity with its
/// name, a removal takes a registered identity out. Either is ignored where
/// it would repeat or miss an identity.
pub open spec fn apply_event(s: Seq<Named>, e: RawInputEvent) -> Seq<Named> {
    if e.is_arrival() {
        if has_id(s, e.device()) {
            s
        } else {
            s.push((e.device(), event_name(e)))
        }
    } else {
        if has_id(s, e.device()) {
            s.remove(index_of_id(s, e.device()))
        } else {
            s
        }
    }
}

/// The registry after the events `es`, in order.
pub open spec fn apply_events(s: Seq<Named>, es: Seq<RawInputEvent>) -> Seq<Named>
    decreases es.len(),
{
    if es.len() == 0 {
        s
    } else {
        apply_events(apply_event(s, es[0]), es.subrange(1, es.len() as int))
    }
}

/// `a` and `b` are the same registry entry, whatever their bindings.
pub open spec fn same_entry(a: RealDeviceState, b: RealDeviceState) -> bool {
    a.id == b.id && a.name == b.name && a.buffer == b.buffer
}

/// Slots and registry of the binding engine.
pub struct State {
    pub virtual_devices: Vec<VirtualDeviceState>,
    pub real_devices: Vec<RealDeviceState>,
}

/// The first index at which `real_devices` holds `id`.
pub fn find_real_device(real_devices: &Vec<RealDeviceState>, id: DeviceId) -> (r: Option<usize>)
    ensures
        match r {
            Some(i) => i < real_devices@.len() && real_devices@[i as int].id == id && forall|j: int|
                0 <= j < i ==> real_devices@[j].id != id,
            None => forall|j: int| 0 <= j < real_devices@.len() ==> real_devices@[j].id != id,
        },
{
    let mut i: usize = 0;
    while i < real_devices.len()
        invariant
            i <= real_devices@.len(),
            forall|j: int| 0 <= j < i ==> real_devices@[j].id != id,
        decreases real_devices@.len() - i,
    {
        if real_devices[i].id == id {
            return Some(i);
        }
        i = i + 1;
    }
    None
}

impl State {
    /// The registry's identities, in arrival order.
    pub open spec fn ids(self) -> Seq<DeviceId> {
        self.real_devices@.map_values(|r: RealDeviceState| r.id)
    }

    /// The registry's identities and names, in arrival order.
    pub open spec fn named(self) -> Seq<Named> {
        self.real_devices@.map_values(|r: RealDeviceState| (r.id, r.name@))
    }

    /// The bindings of the slots.
    pub open spec fn bindings(self) -> Seq<Option<DeviceId>> {
        self.virtual_devices@.map_values(|v: VirtualDeviceState| v.binding)
    }

    /// Every unbound slot holds the neutral record.
    pub open spec fn unbound_neutral(self) -> bool {
        forall|i: int|
            0 <= i < self.virtual_devices@.len() && (#[trigger] self.virtual_devices@[i]).binding
                is None ==> self.virtual_devices@[i].inputs == neutral_inputs()
    }

    /// The bindings are the ones the policy gives for the registry, in both
    /// directions.
    pub open spec fn bound_by_policy(self) -> bool {
        &&& forall|i: int|
            0 <= i < self.virtual_devices@.len() ==> (#[trigger] self.virtual_devices@[i]).binding
                == slot_policy(self.ids(), i)
        &&& forall|j: int|
            0 <= j < self.real_devices@.len() ==> (#[trigger] self.real_devices@[j]).binding
                == back_policy(self.real_devices@.len() as int, self.virtual_devices@.len() as int, j)
    }

    /// Identities are unique, bindings are the policy's and unbound slots
    /// are neutral.
    pub open spec fn wf(self) -> bool {
        &&& self.virtual_devices@.len() <= usize::MAX
        &&& unique_ids(self.ids())
        &&& self.bound_by_policy()
        &&& self.unbound_neutral()
    }

    /// `device_count` unbound slots holding the neutral record; no devices.
    pub fn new(device_count: usize) -> (r: State)
        ensures
            r.wf(),
            r.virtual_devices@.len() == device_count,
            r.real_devices@.len() == 0,
    {
        let mut virtual_devices: Vec<VirtualDeviceState> = Vec::new();
        let mut i: usize = 0;
        while i < device_count
            invariant
                i <= device_count,
                virtual_devices@.len() == i,
                forall|k: int|
                    0 <= k < i ==> (#[trigger] virtual_devices@[k]).binding is None
                        && virtual_devices@[k].inputs == neutral_inputs(),
            decreases device_count - i,
        {
            virtual_devices.push(VirtualDeviceState { inputs: DeviceInputs::default(), binding: None });
            i = i + 1;
        }
        State { virtual_devices, real_devices: Vec::new() }
    }

    /// Binds every slot by the policy: slot `i` follows the `i`-th newest
    /// device; a slot left without a device gets the neutral record.
    pub fn bind_devices(&mut self)
        requires
            unique_ids(old(self).ids()),
            old(self).unbound_neutral(),
        ensures
            final(self).wf(),
            final(self).ids() == old(self).ids(),
            final(self).virtual_devices@.len() == old(self).virtual_devices@.len(),
            forall|i: int|
                0 <= i < old(self).virtual_devices@.len() && (#[trigger] final(self).virtual_devices@[i]).binding is Some
                    ==> final(self).virtual_devices@[i].inputs == old(self).virtual_devices@[i].inputs,
            final(self).real_devices@.len() == old(self).real_devices@.len(),
            forall|j: int|
                0 <= j < old(self).real_devices@.len() ==> same_entry(#[trigger] final(self).real_devices@[j], old(self).real_devices@[j]),
            old(self).wf() ==> final(self).virtual_devices@ == old(self).virtual_devices@ && final(self).real_devices@
                == old(self).real_devices@,
    {
        let k = self.real_devices.len();
        let n = self.virtual_devices.len();
        let ghost ids = self.ids();
        let mut i: usize = 0;
        while i < n
            invariant
                i <= n,
                n == self.virtual_devices@.len(),
                k == self.real_devices@.len(),
                self.ids() == ids,
                ids == old(self).ids(),
                unique_ids(ids),
                self.unbound_neutral(),
                forall|a: int| 0 <= a < i ==> (#[trigger] self.virtual_devices@[a]).binding == slot_policy(ids, a),
                forall|a: int| i <= a < n ==> #[trigger] self.virtual_devices@[a] == old(self).virtual_devices@[a],
                forall|a: int|
                    0 <= a < n && (#[trigger] self.virtual_devices@[a]).binding is Some
                        ==> self.virtual_devices@[a].inputs == old(self).virtual_devices@[a].inputs,
                self.real_devices@ == old(self).real_devices@,
                old(self).virtual_devices@.len() == n,
                old(self).wf() ==> forall|a: int| 0 <= a < i ==> #[trigger] self.virtual_devices@[a] == old(self).virtual_devices@[a],
            decreases n - i,
        {
            let target = if i < k {
                Some(self.real_devices[k - 1 - i].id)
            } else {
                None
            };
            let mut vdev = self.virtual_devices[i];
            if target.is_none() {
                vdev.inputs = DeviceInputs::default();
            }
            vdev.binding = target;
            proof {
                if old(self).wf() {
                    assert(old(self).virtual_devices@[i as int].binding == slot_policy(ids, i as int));
                    assert(vdev == old(self).virtual_devices@[i as int]);
                }
            }
            self.virtual_devices.set(i, vdev);
            i = i + 1;
        }
        let mut j: usize = 0;
        while j < k
            invariant
                j <= k,
                n == self.virtual_devices@.len(),
                k == self.real_devices@.len(),
                self.ids() == ids,
                unique_ids(ids),
                self.unbound_neutral(),
                forall|a: int| 0 <= a < n ==> (#[trigger] self.virtual_devices@[a]).binding == slot_policy(ids, a),
                forall|a: int| 0 <= a < j ==> (#[trigger] self.real_devices@[a]).binding == back_policy(k as int, n as int, a),
                forall|a: int|
                    0 <= a < n && (#[trigger] self.virtual_devices@[a]).binding is Some
                        ==> self.virtual_devices@[a].inputs == old(self).virtual_devices@[a].inputs,
                forall|a: int| 0 <= a < k ==> same_entry(#[trigger] self.real_devices@[a], old(self).real_devices@[a]),
                forall|a: int| j <= a < k ==> #[trigger] self.real_devices@[a] == old(self).real_devices@[a],
                old(self).wf() ==> self.virtual_devices@ == old(self).virtual_devices@,
                old(self).wf() ==> forall|a: int| 0 <= a < j ==> #[trigger] self.real_devices@[a] == old(self).real_devices@[a],
                old(self).virtual_devices@.len() == n,
                old(self).real_devices@.len() == k,
            decreases k - j,
        {
            let back = if k - 1 - j < n {
                Some(VirtualDeviceId(k - 1 - j))
            } else {
                None
            };
            self.real_devices[j].binding = back;
            proof {
                assert(self.ids() =~= ids);
                if old(self).wf() {
                    assert(old(self).real_devices@[j as int].binding == back_policy(k as int, n as int, j as int));
                }
            }
            j = j + 1;
        }
    }
}


impl State {
    /// Frees the slot that registry entry `real_device_idx` is bound to, if
    /// any: the slot forgets the device and holds the neutral record again,
    /// the entry forgets the slot, and nothing else changes.
    pub fn unbind_device(&mut self, real_device_idx: usize)
        requires
            old(self).wf(),
            real_device_idx < old(self).real_devices@.len(),
        ensures
            final(self).unbound_neutral(),
            old(self).real_devices@[real_device_idx as int].binding is None ==> final(self).virtual_devices@
                == old(self).virtual_devices@ && final(self).real_devices@ == old(self).real_devices@,
            old(self).real_devices@[real_device_idx as int].binding is Some ==> ({
                let b = old(self).real_devices@[real_device_idx as int].binding->0;
                let v = b.0 as int;
                let o = old(self).real_devices@[real_device_idx as int];
                &&& final(self).virtual_devices@ == old(self).virtual_devices@.update(
                    v,
                    VirtualDeviceState { inputs: neutral_inputs(), binding: None },
                )
                &&& final(self).real_devices@ == old(self).real_devices@.update(
                    real_device_idx as int,
                    RealDeviceState { binding: None, ..o },
                )
            }),
    {
        if let Some(VirtualDeviceId(vdev_idx)) = self.real_devices[real_device_idx].binding {
            proof {
                let k = old(self).real_devices@.len() as int;
                assert(old(self).real_devices@[real_device_idx as int].binding == back_policy(
                    k,
                    old(self).virtual_devices@.len() as int,
                    real_device_idx as int,
                ));
            }
            let mut vdev = self.virtual_devices[vdev_idx];
            vdev.binding = None;
            vdev.inputs = DeviceInputs::default();
            self.virtual_devices.set(vdev_idx, vdev);
            self.real_devices[real_device_idx].binding = None;
            proof {
                assert(self.real_devices@ =~= old(self).real_devices@.update(
                    real_device_idx as int,
                    RealDeviceState { binding: None, ..old(self).real_devices@[real_device_idx as int] },
                ));
            }
        }
    }

    /// Registers a newly connected device, with its name and the read side
    /// of its transport, as the newest entry and rebinds. An identity that
    /// is already registered is left as it is.
    pub fn add_device(&mut self, id: DeviceId, name: String, buffer: triple_buffer::Output<DeviceInputs>)
        requires
            old(self).wf(),
        ensures
            final(self).wf(),
            final(self).virtual_devices@.len() == old(self).virtual_devices@.len(),
            final(self).named() == (if has_id(old(self).named(), id) {
                old(self).named()
            } else {
                old(self).named().push((id, name@))
            }),
            has_id(old(self).named(), id) ==> final(self).virtual_devices@ == old(self).virtual_devices@
                && final(self).real_devices@ == old(self).real_devices@,
            !has_id(old(self).named(), id) ==> final(self).real_devices@.len() == old(self).real_devices@.len() + 1
                && final(self).real_devices@.last().buffer == buffer && forall|j: int|
                0 <= j < old(self).real_devices@.len() ==> same_entry(
                    #[trigger] final(self).real_devices@[j],
                    old(self).real_devices@[j],
                ),
    {
        let ghost ids = self.ids();
        let ghost named = self.named();
        match find_real_device(&self.real_devices, id) {
            Some(i) => {
                proof {
                    assert(named[i as int].0 == id);
                }
            },
            None => {
                proof {
                    assert(!ids.contains(id));
                    if has_id(named, id) {
                        let k = choose|k: int| 0 <= k < named.len() && (#[trigger] named[k]).0 == id;
                        assert(self.real_devices@[k].id == id);
                    }
                }
                let ghost before = self.real_devices@;
                self.real_devices.push(RealDeviceState { id, name, buffer, binding: None });
                proof {
                    assert(self.ids() =~= ids.push(id));
                    assert(self.named() =~= named.push((id, name@)));
                }
                let ghost pushed = self.real_devices@;
                self.bind_devices();
                proof {
                    assert(self.named() =~= named.push((id, name@))) by {
                        assert forall|j: int| 0 <= j < self.real_devices@.len() implies same_entry(#[trigger] self.real_devices@[j], pushed[j]) by {}
                    }
                    assert forall|j: int| 0 <= j < before.len() implies same_entry(#[trigger] self.real_devices@[j], before[j]) by {
                        assert(same_entry(self.real_devices@[j], pushed[j]));
                    }
                    assert(same_entry(self.real_devices@[before.len() as int], pushed[before.len() as int]));
                }
            },
        }
    }

    /// Takes a disconnected device out of the registry, freeing its slot, and
    /// rebinds; the other entries keep their names and transports, in order.
    /// An identity that is not registered is ignored.
    pub fn remove_device(&mut self, id: DeviceId)
        requires
            old(self).wf(),
        ensures
            final(self).wf(),
            final(self).virtual_devices@.len() == old(self).virtual_devices@.len(),
            final(self).named() == (if has_id(old(self).named(), id) {
                old(self).named().remove(index_of_id(old(self).named(), id))
            } else {
                old(self).named()
            }),
            !has_id(old(self).named(), id) ==> final(self).virtual_devices@ == old(self).virtual_devices@
                && final(self).real_devices@ == old(self).real_devices@,
            has_id(old(self).named(), id) ==> ({
                let c = index_of_id(old(self).named(), id);
                &&& final(self).real_devices@.len() == old(self).real_devices@.len() - 1
                &&& forall|j: int|
                    0 <= j < final(self).real_devices@.len() ==> same_entry(
                        #[trigger] final(self).real_devices@[j],
                        old(self).real_devices@[if j < c { j } else { j + 1 }],
                    )
            }),
    {
        let ghost ids = self.ids();
        let ghost named = self.named();
        match find_real_device(&self.real_devices, id) {
            None => {
                proof {
                    if has_id(named, id) {
                        let k = choose|k: int| 0 <= k < named.len() && (#[trigger] named[k]).0 == id;
                        assert(self.real_devices@[k].id == id);
                    }
                }
            },
            Some(real_device_idx) => {
                proof {
                    assert(named[real_device_idx as int].0 == id);
                    assert(has_id(named, id));
                    let c = index_of_id(named, id);
                    assert(named[c].0 == id);
                    assert(ids[c] == id && ids[real_device_idx as int] == id);
                    if c < real_device_idx {
                        assert(ids[c] != ids[real_device_idx as int]);
                    } else if c > real_device_idx {
                        assert(ids[real_device_idx as int] != ids[c]);
                    }
                }
                self.unbind_device(real_device_idx);
                let ghost unbound = self.real_devices@;
                let _removed = self.real_devices.remove(real_device_idx);
                let ghost removed = self.real_devices@;
                proof {
                    assert(self.ids() =~= ids.remove(real_device_idx as int));
                    assert(self.named() =~= named.remove(real_device_idx as int));
                    assert forall|a: int, b: int| 0 <= a < b < self.ids().len() implies self.ids()[a] != self.ids()[b] by {
                        let a0 = if a < real_device_idx { a } else { a + 1 };
                        let b0 = if b < real_device_idx { b } else { b + 1 };
                        assert(ids[a0] != ids[b0]);
                    }
                }
                self.bind_devices();
                proof {
                    assert forall|j: int| 0 <= j < self.real_devices@.len() implies same_entry(
                        #[trigger] self.real_devices@[j],
                        old(self).real_devices@[if j < real_device_idx { j } else { j + 1 }],
                    ) by {
                        assert(same_entry(self.real_devices@[j], removed[j]));
                    }
                    assert(self.named() =~= named.remove(real_device_idx as int)) by {
                        assert forall|j: int| 0 <= j < self.real_devices@.len() implies same_entry(#[trigger] self.real_devices@[j], removed[j]) by {}
                    }
                }
            },
        }
    }

    /// Copies into every bound slot the latest record of its device, and
    /// returns what it read for each slot (`None` for an unbound one).
    /// Bindings, the registry's names and unbound slots stay as they are.
    pub fn update(&mut self) -> (reads: Vec<Option<DeviceInputs>>)
        requires
            old(self).wf(),
        ensures
            final(self).wf(),
            final(self).named() == old(self).named(),
            final(self).bindings() == old(self).bindings(),
            final(self).virtual_devices@.len() == old(self).virtual_devices@.len(),
            final(self).real_devices@.len() == old(self).real_devices@.len(),
            forall|j: int|
                0 <= j < old(self).real_devices@.len() ==> (#[trigger] final(self).real_devices@[j]).binding
                    == old(self).real_devices@[j].binding,
            reads@.len() == old(self).virtual_devices@.len(),
            forall|i: int|
                0 <= i < reads@.len() ==> ((#[trigger] reads@[i]) is Some <==> old(self).virtual_devices@[i].binding is Some),
            forall|i: int|
                0 <= i < reads@.len() && (#[trigger] reads@[i]) is Some ==> final(self).virtual_devices@[i].inputs
                    == reads@[i]->0,
            forall|i: int|
                0 <= i < old(self).virtual_devices@.len() && (#[trigger] old(self).virtual_devices@[i]).binding
                    is None ==> final(self).virtual_devices@[i] == old(self).virtual_devices@[i],
    {
        let n = self.virtual_devices.len();
        let ghost ids = self.ids();
        let ghost named = self.named();
        let mut reads: Vec<Option<DeviceInputs>> = Vec::new();
        let mut i: usize = 0;
        while i < n
            invariant
                i <= n,
                n == self.virtual_devices@.len(),
                self.wf(),
                self.ids() == ids,
                ids == old(self).ids(),
                self.named() == named,
                named == old(self).named(),
                self.real_devices@.len() == old(self).real_devices@.len(),
                forall|j: int|
                    0 <= j < old(self).real_devices@.len() ==> (#[trigger] self.real_devices@[j]).binding
                        == old(self).real_devices@[j].binding,
                self.virtual_devices@.len() == old(self).virtual_devices@.len(),
                forall|a: int| 0 <= a < n ==> (#[trigger] self.virtual_devices@[a]).binding == old(self).virtual_devices@[a].binding,
                forall|a: int|
                    0 <= a < n && (#[trigger] old(self).virtual_devices@[a]).binding is None
                        ==> self.virtual_devices@[a] == old(self).virtual_devices@[a],
                reads@.len() == i,
                forall|a: int| 0 <= a < i ==> ((#[trigger] reads@[a]) is Some <==> old(self).virtual_devices@[a].binding is Some),
                forall|a: int| 0 <= a < i && (#[trigger] reads@[a]) is Some ==> self.virtual_devices@[a].inputs == reads@[a]->0,
            decreases n - i,
        {
            let mut read: Option<DeviceInputs> = None;
            if let Some(rdev_id) = self.virtual_devices[i].binding {
                proof {
                    let k = ids.len();
                    assert(ids[k - 1 - i] == rdev_id);
                }
                match find_real_device(&self.real_devices, rdev_id) {
                    Some(real_device_idx) => {
                        let ghost rb = self.real_devices@;
                        let inputs = read_latest(&mut self.real_devices[real_device_idx].buffer);
                        proof {
                            assert(self.ids() =~= ids);
                            assert(self.named() =~= named);
                            assert(forall|j: int| 0 <= j < rb.len() ==> (#[trigger] self.real_devices@[j]).binding == rb[j].binding);
                        }
                        let mut vdev = self.virtual_devices[i];
                        vdev.inputs = inputs;
                        self.virtual_devices.set(i, vdev);
                        read = Some(inputs);
                    },
                    None => {
                        proof {
                            let k = ids.len();
                            assert(self.real_devices@[k - 1 - i].id == rdev_id);
                        }
                    },
                }
            }
            reads.push(read);
            i = i + 1;
        }
        proof {
            assert(self.bindings() =~= old(self).bindings());
        }
        reads
    }
}

/// The binding engine together with the settings it was made with.
pub struct Context {
    state: State,
    device_count: usize,
    xinput_enabled: bool,
}

impl Context {
    /// The slots and registry.
    pub closed spec fn state(self) -> State {
        self.state
    }

    /// The number of virtual slots.
    pub closed spec fn count(self) -> nat {
        self.device_count as nat
    }

    /// Whether the alternate subsystem is offered to consumers.
    pub closed spec fn xinput(self) -> bool {
        self.xinput_enabled
    }

    /// The state is well formed and has one slot per configured device.
    pub closed spec fn wf(self) -> bool {
        &&& self.state.wf()
        &&& self.state.virtual_devices@.len() == self.device_count
    }

    /// What a well-formed context says of its state.
    pub proof fn lemma_wf(self)
        requires
            self.wf(),
        ensures
            self.state().wf(),
            self.state().virtual_devices@.len() == self.count(),
    {
    }

    /// `device_count` unbound slots holding the neutral record; no devices.
    pub fn new(device_count: usize, xinput_enabled: bool) -> (r: Context)
        ensures
            r.wf(),
            r.count() == device_count,
            r.xinput() == xinput_enabled,
            r.state().ids().len() == 0,
    {
        let state = State::new(device_count);
        proof {
            assert(state.ids() =~= Seq::<DeviceId>::empty());
        }
        Context { state, device_count, xinput_enabled }
    }

    pub fn device_count(&self) -> (r: usize)
        ensures
            r == self.count(),
    {
        self.device_count
    }

    pub fn xinput_enabled(&self) -> (r: bool)
        ensures
            r == self.xinput(),
    {
        self.xinput_enabled
    }

    /// The record of slot `idx` as of the last `update`.
    pub fn device_state(&self, idx: usize) -> (r: DeviceInputs)
        requires
            self.wf(),
            idx < self.count(),
        ensures
            r == self.state().virtual_devices@[idx as int].inputs,
            r.axes_in_range(),
    {
        let r = self.state.virtual_devices[idx].inputs;
        r.note_axes_in_range();
        r
    }

    /// The device that slot `idx` follows, if any.
    pub fn device_binding(&self, idx: usize) -> (r: Option<DeviceId>)
        requires
            self.wf(),
            idx < self.count(),
        ensures
            r == self.state().virtual_devices@[idx as int].binding,
            r == slot_policy(self.state().ids(), idx as int),
    {
        self.state.virtual_devices[idx].binding
    }

    /// Applies `events` in order to the registry, rebinding after each, then
    /// copies each bound device's latest record into its slot, and returns
    /// the record read for each slot (`None` for an unbound one).
    pub fn update(&mut self, events: Vec<RawInputEvent>) -> (reads: Vec<Option<DeviceInputs>>)
        requires
            old(self).wf(),
        ensures
            final(self).wf(),
            final(self).count() == old(self).count(),
            final(self).xinput() == old(self).xinput(),
            final(self).state().named() == apply_events(old(self).state().named(), events@),
            forall|i: int|
                0 <= i < final(self).count() ==> (#[trigger] final(self).state().virtual_devices@[i]).binding
                    == slot_policy(final(self).state().ids(), i),
            forall|i: int|
                0 <= i < final(self).count() && (#[trigger] final(self).state().virtual_devices@[i]).binding is None
                    ==> final(self).state().virtual_devices@[i].inputs == neutral_inputs(),
            reads@.len() == final(self).count(),
            forall|i: int|
                0 <= i < reads@.len() ==> ((#[trigger] reads@[i]) is Some <==> final(self).state().virtual_devices@[i].binding
                    is Some),
            forall|i: int|
                0 <= i < reads@.len() && (#[trigger] reads@[i]) is Some ==> final(self).state().virtual_devices@[i].inputs
                    == reads@[i]->0,
            events@.len() == 0 ==> final(self).state().bindings() == old(self).state().bindings(),
            (events@.len() == 0 && forall|i: int|
                0 <= i < reads@.len() && (#[trigger] reads@[i]) is Some ==> reads@[i]->0
                    == old(self).state().virtual_devices@[i].inputs) ==> final(self).state().virtual_devices@
                == old(self).state().virtual_devices@,
    {
        let mut events = events;
        let ghost named0 = self.state.named();
        let ghost events0 = events@;
        while events.len() > 0
            invariant
                self.wf(),
                self.device_count == old(self).device_count,
                self.xinput_enabled == old(self).xinput_enabled,
                apply_events(self.state.named(), events@) == apply_events(named0, events0),
                named0 == old(self).state.named(),
                events@.len() <= events0.len(),
                events0.len() == 0 ==> self.state == old(self).state,
            decreases events@.len(),
        {
            let ghost before = events@;
            let event = events.remove(0);
            proof {
                assert(events@ =~= before.subrange(1, before.len() as int));
            }
            match event {
                RawInputEvent::DeviceArrived(description, buffer) => {
                    self.state.add_device(description.device_id, description.device_name, buffer);
                },
                RawInputEvent::DeviceRemoved(id) => {
                    self.state.remove_device(id);
                },
            }
        }
        let ghost mid = self.state;
        let reads = self.state.update();
        proof {
            if events0.len() == 0 && forall|i: int|
                0 <= i < reads@.len() && (#[trigger] reads@[i]) is Some ==> reads@[i]->0
                    == old(self).state.virtual_devices@[i].inputs {
                assert forall|i: int| 0 <= i < self.state.virtual_devices@.len() implies #[trigger] self.state.virtual_devices@[i]
                    == old(self).state.virtual_devices@[i] by {
                    assert(mid.virtual_devices@[i] == old(self).state.virtual_devices@[i]);
                    if mid.virtual_devices@[i].binding is Some {
                        assert(reads@[i] is Some);
                        assert(mid.bindings()[i] == self.state.bindings()[i]);
                    }
                }
                assert(self.state.virtual_devices@ =~= old(self).state.virtual_devices@);
            }
            if events0.len() == 0 {
                assert(mid == old(self).state);
            }
            assert forall|i: int| 0 <= i < reads@.len() implies ((#[trigger] reads@[i]) is Some <==> self.state.virtual_devices@[i].binding
                is Some) by {
                assert(mid.bindings()[i] == self.state.bindings()[i]);
            }
        }
        reads
    }
}

/// Every bound slot follows a registered device whose entry is bound back to
/// that same slot.
pub proof fn lemma_binding_has_entry(s: State, v: int)
    requires
        s.wf(),
        0 <= v < s.virtual_devices@.len(),
        s.virtual_devices@[v].binding is Some,
    ensures
        exists|r: int|
            0 <= r < s.real_devices@.len() && (#[trigger] s.real_devices@[r]).id
                == s.virtual_devices@[v].binding->0 && s.real_devices@[r].binding == Some(
                VirtualDeviceId(v as usize),
            ),
{
    let k = s.real_devices@.len() as int;
    let r = k - 1 - v;
    assert(s.virtual_devices@[v].binding == slot_policy(s.ids(), v));
    assert(s.real_devices@[r].binding == back_policy(k, s.virtual_devices@.len() as int, r));
    assert(s.ids()[r] == s.real_devices@[r].id);
}

/// No two slots follow the same device, and no two registry entries are bound
/// to the same slot.
pub proof fn lemma_bindings_distinct(s: State)
    requires
        s.wf(),
    ensures
        forall|a: int, b: int|
            0 <= a < s.virtual_devices@.len() && 0 <= b < s.virtual_devices@.len() && a != b
                && (#[trigger] s.virtual_devices@[a]).binding is Some
                ==> s.virtual_devices@[a].binding != (#[trigger] s.virtual_devices@[b]).binding,
        forall|a: int, b: int|
            0 <= a < s.real_devices@.len() && 0 <= b < s.real_devices@.len() && a != b
                && (#[trigger] s.real_devices@[a]).binding is Some
                ==> s.real_devices@[a].binding != (#[trigger] s.real_devices@[b]).binding,
{
    let k = s.ids().len();
    assert forall|a: int, b: int|
        0 <= a < s.virtual_devices@.len() && 0 <= b < s.virtual_devices@.len() && a != b
            && (#[trigger] s.virtual_devices@[a]).binding is Some
            implies s.virtual_devices@[a].binding != (#[trigger] s.virtual_devices@[b]).binding by {
        if s.virtual_devices@[b].binding is Some {
            let ia = k - 1 - a;
            let ib = k - 1 - b;
            if ia < ib {
                assert(s.ids()[ia] != s.ids()[ib]);
            } else {
                assert(s.ids()[ib] != s.ids()[ia]);
            }
        }
    }
    let n = s.virtual_devices@.len() as int;
    assert forall|a: int, b: int|
        0 <= a < s.real_devices@.len() && 0 <= b < s.real_devices@.len() && a != b
            && (#[trigger] s.real_devices@[a]).binding is Some
            implies s.real_devices@[a].binding != (#[trigger] s.real_devices@[b]).binding by {
        assert(s.real_devices@[a].binding == back_policy(k as int, n, a));
        assert(s.real_devices@[b].binding == back_policy(k as int, n, b));
        if s.real_devices@[b].binding is Some {
            assert(0 <= k - 1 - a < n && 0 <= k - 1 - b < n);
            let va = s.real_devices@[a].binding->0;
            let vb = s.real_devices@[b].binding->0;
            assert(va.0 != vb.0);
        }
    }
}

/// A slot that follows no device holds the neutral record: in particular the
/// slot freed by a removal, until the policy binds it again.
pub proof fn lemma_unbound_slot_neutral(s: State, v: int)
    requires
        s.wf(),
        0 <= v < s.virtual_devices@.len(),
        s.virtual_devices@[v].binding is None,
    ensures
        s.virtual_devices@[v].inputs == neutral_inputs(),
{
}

/// With `k` registered devices and at least `k` slots, slot `i < k` follows
/// the `(k - i)`-th arrival (the newest first) and the other slots are
/// unbound.
pub proof fn lemma_newest_first(s: State)
    requires
        s.wf(),
        s.real_devices@.len() <= s.virtual_devices@.len(),
    ensures
        forall|i: int|
            0 <= i < s.real_devices@.len() ==> (#[trigger] s.virtual_devices@[i]).binding == Some(
                s.ids()[s.real_devices@.len() - 1 - i],
            ),
        forall|i: int|
            s.real_devices@.len() <= i < s.virtual_devices@.len()
                ==> (#[trigger] s.virtual_devices@[i]).binding is None,
{
}

/// An update without events leaves the registry as it was; and since the
/// bindings are a function of the registry, it leaves them as they were too
/// (see `lemma_bindings_follow_registry`).
pub proof fn lemma_no_events_keep_registry(named: Seq<Named>)
    ensures
        apply_events(named, Seq::<RawInputEvent>::empty()) == named,
{
}

/// Two well-formed states with the same registry and slot count bind their
/// slots alike.
pub proof fn lemma_bindings_follow_registry(s1: State, s2: State)
    requires
        s1.wf(),
        s2.wf(),
        s1.ids() == s2.ids(),
        s1.virtual_devices@.len() == s2.virtual_devices@.len(),
    ensures
        s1.bindings() == s2.bindings(),
{
    assert(s1.bindings() =~= s2.bindings());
}

} // verus!
