//! The port-abstraction facade: the input and output handles a host
//! application holds before connecting. Each carries the client name and (for
//! input) the current ignore set; enumeration, connection, and teardown are
//! driven by unverified glue that owns the BLE stack.

use vstd::prelude::*;
use crate::errors::PortInfoError;
use crate::filter::Ignore;
use crate::port::{MidiInputPort, MidiOutputPort};

verus! {

/// An input facade: a client name and the ignore set applied to every
/// message its future connections decode.
pub struct MidiInput {
    pub client_name: String,
    pub ignore_flags: Ignore,
}

impl MidiInput {
    /// A new input facade carrying the client name; nothing is ignored until
    /// `ignore` says otherwise. The caller is expected to have brought the
    /// Bluetooth stack up first.
    pub fn new(client_name: &str) -> (r: MidiInput)
        ensures
            r.client_name@ == client_name@,
            r.ignore_flags == (Ignore { sysex: false, time: false, active_sense: false }),
    {
        MidiInput { client_name: String::from_str(client_name), ignore_flags: Ignore::none() }
    }

    /// Replace the ignore set.
    pub fn ignore(&mut self, flags: Ignore)
        ensures
            final(self).ignore_flags == flags,
            final(self).client_name == old(self).client_name,
    {
        self.ignore_flags = flags;
    }

    /// The cached human-readable name of a port; infallible by contract.
    pub fn port_name(&self, port: &MidiInputPort) -> (r: Result<String, PortInfoError>)
        ensures
            r matches Ok(name) && name@ == port.inner.name@,
    {
        Ok(port.inner.name.clone())
    }
}

/// An output facade: a client name.
pub struct MidiOutput {
    pub client_name: String,
}

impl MidiOutput {
    /// A new output facade carrying the client name. The caller is expected
    /// to have brought the Bluetooth stack up first.
    pub fn new(client_name: &str) -> (r: MidiOutput)
        ensures
            r.client_name@ == client_name@,
    {
        MidiOutput { client_name: String::from_str(client_name) }
    }

    /// The cached human-readable name of a port; infallible by contract.
    pub fn port_name(&self, port: &MidiOutputPort) -> (r: Result<String, PortInfoError>)
        ensures
            r matches Ok(name) && name@ == port.inner.name@,
    {
        Ok(port.inner.name.clone())
    }
}

impl Clone for MidiOutput {
    fn clone(&self) -> (r: Self)
        ensures
            r.client_name@ == self.client_name@,
    {
        MidiOutput { client_name: self.client_name.clone() }
    }
}

} // verus!
