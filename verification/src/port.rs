//! The port model: a Bluetooth MIDI port is an adapter index, an opaque
//! peripheral identity (its textual form, compared by equality only), and a
//! human-readable name. Ports compare by adapter index and identity alone,
//! and carry a per-process stable id string.

use vstd::prelude::*;
use vstd::std_specs::cmp::PartialEqSpec;

verus! {

/// The MIDI service advertised by BLE MIDI peripherals, as the 128 bits of
/// its UUID.
pub const MIDI_SERVICE_UUID: u128 = 0x03B8_0E5A_EDE8_4B33_A751_6CE3_4EC4_C700;

/// The MIDI data characteristic carrying notifications and writes, as the
/// 128 bits of its UUID.
pub const MIDI_CHARACTERISTIC_UUID: u128 = 0x7772_E5DB_3868_4112_A1A9_F266_9D10_6BF3;

/// The digit character for one decimal digit.
pub open spec fn spec_dec_digit(d: nat) -> char {
    if d == 0 {
        '0'
    } else if d == 1 {
        '1'
    } else if d == 2 {
        '2'
    } else if d == 3 {
        '3'
    } else if d == 4 {
        '4'
    } else if d == 5 {
        '5'
    } else if d == 6 {
        '6'
    } else if d == 7 {
        '7'
    } else if d == 8 {
        '8'
    } else {
        '9'
    }
}

/// The decimal representation of a number, most significant digit first.
pub open spec fn spec_dec_string(n: nat) -> Seq<char>
    decreases n,
{
    if n < 10 {
        seq![spec_dec_digit(n)]
    } else {
        spec_dec_string(n / 10) + seq![spec_dec_digit(n % 10)]
    }
}

/// The one-character string for a decimal digit.
fn digit_str(d: u8) -> (r: &'static str)
    requires
        d < 10,
    ensures
        r@ == seq![spec_dec_digit(d as nat)],
{
    proof {
        reveal_strlit("0");
        reveal_strlit("1");
        reveal_strlit("2");
        reveal_strlit("3");
        reveal_strlit("4");
        reveal_strlit("5");
        reveal_strlit("6");
        reveal_strlit("7");
        reveal_strlit("8");
        reveal_strlit("9");
    }
    if d == 0 {
        "0"
    } else if d == 1 {
        "1"
    } else if d == 2 {
        "2"
    } else if d == 3 {
        "3"
    } else if d == 4 {
        "4"
    } else if d == 5 {
        "5"
    } else if d == 6 {
        "6"
    } else if d == 7 {
        "7"
    } else if d == 8 {
        "8"
    } else {
        "9"
    }
}

/// Format a number in decimal.
fn format_index(n: usize) -> (r: String)
    ensures
        r@ == spec_dec_string(n as nat),
    decreases n,
{
    if n < 10 {
        String::from_str(digit_str(n as u8))
    } else {
        let mut s = format_index(n / 10);
        s.append(digit_str((n % 10) as u8));
        s
    }
}

/// A discovered Bluetooth MIDI port.
pub struct BluetoothPort {
    pub adapter_index: usize,
    pub peripheral_id: String,
    pub name: String,
}

impl Clone for BluetoothPort {
    fn clone(&self) -> (r: Self)
        ensures
            r.adapter_index == self.adapter_index,
            r.peripheral_id@ == self.peripheral_id@,
            r.name@ == self.name@,
    {
        BluetoothPort {
            adapter_index: self.adapter_index,
            peripheral_id: self.peripheral_id.clone(),
            name: self.name.clone(),
        }
    }
}

impl PartialEq for BluetoothPort {
    /// Ports are equal iff adapter index and peripheral identity are equal;
    /// the name plays no part.
    fn eq(&self, other: &Self) -> (r: bool) {
        self.adapter_index == other.adapter_index && self.peripheral_id == other.peripheral_id
    }
}

impl vstd::std_specs::cmp::PartialEqSpecImpl for BluetoothPort {
    open spec fn obeys_eq_spec() -> bool {
        true
    }

    open spec fn eq_spec(&self, other: &BluetoothPort) -> bool {
        self.adapter_index == other.adapter_index && self.peripheral_id@ == other.peripheral_id@
    }
}

impl Eq for BluetoothPort {}

impl BluetoothPort {
    /// The per-process stable id: the adapter index in decimal, a colon, and
    /// the peripheral identity's textual form.
    pub fn stable_id(&self) -> (r: String)
        ensures
            r@ == spec_dec_string(self.adapter_index as nat) + seq![':'] + self.peripheral_id@,
    {
        proof {
            reveal_strlit(":");
        }
        let mut s = format_index(self.adapter_index);
        s.append(":");
        s.append(self.peripheral_id.as_str());
        proof {
            assert(":"@ =~= seq![':']);
        }
        s
    }

    /// Build a port from what one advertisement shows: the port exists iff
    /// the advertised services include the MIDI service, and its name is the
    /// advertised local name, or `"Bluetooth MIDI"` when none was given.
    pub fn from_advertisement(
        adapter_index: usize,
        peripheral_id: String,
        local_name: Option<String>,
        services: &Vec<u128>,
    ) -> (r: Option<BluetoothPort>)
        ensures
            match r {
                Some(port) => {
                    &&& services@.contains(MIDI_SERVICE_UUID)
                    &&& port.adapter_index == adapter_index
                    &&& port.peripheral_id@ == peripheral_id@
                    &&& match local_name {
                        Some(n) => port.name@ == n@,
                        None => port.name@ == "Bluetooth MIDI"@,
                    }
                },
                None => !services@.contains(MIDI_SERVICE_UUID),
            },
    {
        if !is_midi_device(services) {
            None
        } else {
            let name = match local_name {
                Some(n) => n,
                None => String::from_str("Bluetooth MIDI"),
            };
            Some(BluetoothPort { adapter_index, peripheral_id, name })
        }
    }
}

/// Whether an advertisement's service list includes the MIDI service.
pub fn is_midi_device(services: &Vec<u128>) -> (r: bool)
    ensures
        r == services@.contains(MIDI_SERVICE_UUID),
{
    let mut k: usize = 0;
    while k < services.len()
        invariant
            k <= services.len(),
            forall|j: int| 0 <= j < k ==> services@[j] != MIDI_SERVICE_UUID,
        decreases services.len() - k,
    {
        if services[k] == MIDI_SERVICE_UUID {
            return true;
        }
        k = k + 1;
    }
    proof {
        assert(!services@.contains(MIDI_SERVICE_UUID));
    }
    false
}

/// An input port handed out by enumeration.
pub struct MidiInputPort {
    pub inner: BluetoothPort,
}

impl Clone for MidiInputPort {
    fn clone(&self) -> (r: Self)
        ensures
            r.inner.adapter_index == self.inner.adapter_index,
            r.inner.peripheral_id@ == self.inner.peripheral_id@,
            r.inner.name@ == self.inner.name@,
    {
        MidiInputPort { inner: self.inner.clone() }
    }
}

impl PartialEq for MidiInputPort {
    fn eq(&self, other: &Self) -> (r: bool) {
        self.inner == other.inner
    }
}

impl vstd::std_specs::cmp::PartialEqSpecImpl for MidiInputPort {
    open spec fn obeys_eq_spec() -> bool {
        true
    }

    open spec fn eq_spec(&self, other: &MidiInputPort) -> bool {
        PartialEqSpec::eq_spec(&self.inner, &other.inner)
    }
}

impl Eq for MidiInputPort {}

impl MidiInputPort {
    /// The port's per-process stable id.
    pub fn id(&self) -> (r: String)
        ensures
            r@ == spec_dec_string(self.inner.adapter_index as nat) + seq![':']
                + self.inner.peripheral_id@,
    {
        self.inner.stable_id()
    }
}

/// An output port handed out by enumeration.
pub struct MidiOutputPort {
    pub inner: BluetoothPort,
}

impl Clone for MidiOutputPort {
    fn clone(&self) -> (r: Self)
        ensures
            r.inner.adapter_index == self.inner.adapter_index,
            r.inner.peripheral_id@ == self.inner.peripheral_id@,
            r.inner.name@ == self.inner.name@,
    {
        MidiOutputPort { inner: self.inner.clone() }
    }
}

impl PartialEq for MidiOutputPort {
    fn eq(&self, other: &Self) -> (r: bool) {
        self.inner == other.inner
    }
}

impl vstd::std_specs::cmp::PartialEqSpecImpl for MidiOutputPort {
    open spec fn obeys_eq_spec() -> bool {
        true
    }

    open spec fn eq_spec(&self, other: &MidiOutputPort) -> bool {
        PartialEqSpec::eq_spec(&self.inner, &other.inner)
    }
}

impl Eq for MidiOutputPort {}

impl MidiOutputPort {
    /// The port's per-process stable id.
    pub fn id(&self) -> (r: String)
        ensures
            r@ == spec_dec_string(self.inner.adapter_index as nat) + seq![':']
                + self.inner.peripheral_id@,
    {
        self.inner.stable_id()
    }
}

/// Port equality is transport-symmetric: two ports with equal adapter index
/// and peripheral identity compare equal whatever their names, and the
/// comparison does not depend on argument order.
pub proof fn lemma_port_equality_transport_symmetric(a: BluetoothPort, b: BluetoothPort)
    ensures
        PartialEqSpec::eq_spec(&a, &b) <==> (a.adapter_index == b.adapter_index
            && a.peripheral_id@ == b.peripheral_id@),
        PartialEqSpec::eq_spec(&a, &b) == PartialEqSpec::eq_spec(&b, &a),
{
}

} // verus!
