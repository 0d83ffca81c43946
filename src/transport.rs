//! The wait-free hand-off of one record per device, provided by the
//! `triple_buffer` crate: the input thread writes, the poll thread reads.
use vstd::prelude::*;

use crate::types::DeviceInputs;

verus! {

#[verifier::external_type_specification]
#[verifier::external_body]
#[verifier::reject_recursive_types(T)]
pub struct ExInput<T: Send>(triple_buffer::Input<T>);

#[verifier::external_type_specification]
#[verifier::external_body]
#[verifier::reject_recursive_types(T)]
pub struct ExOutput<T: Send>(triple_buffer::Output<T>);

/// Relies on `triple_buffer::TripleBuffer::new` and `split`: a fresh buffer
/// whose write side and read side share one published value, `initial`.
#[verifier::external_body]
pub(crate) fn new_transport(initial: &DeviceInputs) -> (triple_buffer::Input<DeviceInputs>, triple_buffer::Output<DeviceInputs>) {
    triple_buffer::TripleBuffer::new(initial).split()
}

/// Relies on `triple_buffer::Input::write`: publishes `value` to the read side.
#[verifier::external_body]
pub(crate) fn publish(input: &mut triple_buffer::Input<DeviceInputs>, value: DeviceInputs) {
    input.write(value)
}

/// Relies on `triple_buffer::Output::read`: the most recently published
/// record. Which one that is depends on the writer's thread, so nothing is
/// stated of it beyond what every record satisfies.
#[verifier::external_body]
pub(crate) fn read_latest(output: &mut triple_buffer::Output<DeviceInputs>) -> DeviceInputs {
    *output.read()
}

/// The write side of one device's transport, with the history of the
/// records handed to it: the initial record, then each one written, oldest
/// first. Only `write` extends the history.
pub struct Publisher {
    buffer: triple_buffer::Input<DeviceInputs>,
    history: Ghost<Seq<DeviceInputs>>,
}

impl Publisher {
    /// The records handed to the transport, oldest first.
    pub closed spec fn history(self) -> Seq<DeviceInputs> {
        self.history@
    }

    /// The record most recently handed to the transport.
    pub open spec fn latest(self) -> DeviceInputs {
        self.history().last()
    }

    /// A fresh transport holding `initial`: its write side and its read side.
    pub fn new(initial: &DeviceInputs) -> (r: (Publisher, triple_buffer::Output<DeviceInputs>))
        ensures
            r.0.history() == seq![*initial],
            r.0.latest() == *initial,
    {
        let (buffer, output) = new_transport(initial);
        let ghost h = seq![*initial];
        let p = Publisher { buffer, history: Ghost(h) };
        proof {
            assert(p.history().last() == *initial);
        }
        (p, output)
    }

    /// Hands `value` to the read side.
    pub fn write(&mut self, value: DeviceInputs)
        ensures
            final(self).history() == old(self).history().push(value),
            final(self).latest() == value,
    {
        publish(&mut self.buffer, value);
        let ghost h = self.history@.push(value);
        self.history = Ghost(h);
    }
}

} // verus!
