use ble_midi::conn::{advance, request_close, ConnMode, ConnPhase};
use ble_midi::errors::{ConnectError, ErrorTag, SendError};
use ble_midi::filter::Ignore;
use ble_midi::port::{is_midi_device, BluetoothPort, MidiInputPort, MidiOutputPort, MIDI_SERVICE_UUID};
use ble_midi::worker::HandlerData;
use ble_midi::{MidiInput, MidiOutput};

#[test]
fn user_data_round_trip() {
    // the user data handed over at connect comes back bit-identical at close
    let data = vec![1u8, 2, 3, 4];
    let mut handler = HandlerData::new(Ignore::none(), data.clone());
    assert_eq!(handler.take_user_data(), Some(data));
    assert_eq!(handler.take_user_data(), None);
}

#[test]
fn handler_stops_processing_after_take() {
    let mut handler = HandlerData::new(Ignore::none(), 7u32);
    let payload = [0x80u8, 0x80, 0x90, 0x3C, 0x64];
    assert_eq!(handler.process(&payload), vec![vec![0x90u8, 0x3C, 0x64]]);
    handler.take_user_data();
    assert!(handler.process(&payload).is_empty());
}

#[test]
fn input_lifecycle_happy_path() {
    let mode = ConnMode::Input;
    let mut phase = ConnPhase::Idle;
    for expected in [
        ConnPhase::Scanning,
        ConnPhase::Resolved,
        ConnPhase::Connecting,
        ConnPhase::Connected,
        ConnPhase::Discovering,
        ConnPhase::Ready,
        ConnPhase::Subscribed,
    ] {
        phase = advance(phase, mode, true).unwrap();
        assert_eq!(phase, expected);
    }
    // streaming notifications stays subscribed
    assert_eq!(advance(phase, mode, true), Ok(ConnPhase::Subscribed));
    // teardown suppresses errors
    let closing = request_close(phase);
    assert_eq!(closing, ConnPhase::Closing);
    assert_eq!(advance(closing, mode, false), Ok(ConnPhase::Closed));
}

#[test]
fn output_lifecycle_happy_path() {
    let mode = ConnMode::Output;
    let mut phase = ConnPhase::Idle;
    for _ in 0..6 {
        phase = advance(phase, mode, true).unwrap();
    }
    assert_eq!(phase, ConnPhase::Ready);
    assert_eq!(advance(phase, mode, false), Ok(ConnPhase::Writable));
    assert_eq!(advance(ConnPhase::Writable, mode, true), Ok(ConnPhase::Writable));
    assert_eq!(
        advance(ConnPhase::Writable, mode, false),
        Err(ErrorTag::Write)
    );
}

#[test]
fn every_failure_has_its_tag() {
    let mode = ConnMode::Input;
    assert_eq!(advance(ConnPhase::Idle, mode, false), Err(ErrorTag::Peripheral));
    assert_eq!(advance(ConnPhase::Scanning, mode, false), Err(ErrorTag::Scan));
    assert_eq!(advance(ConnPhase::Resolved, mode, false), Err(ErrorTag::Peripheral));
    assert_eq!(advance(ConnPhase::Connecting, mode, false), Err(ErrorTag::Connect));
    assert_eq!(advance(ConnPhase::Connected, mode, false), Err(ErrorTag::Discovery));
    assert_eq!(advance(ConnPhase::Discovering, mode, false), Err(ErrorTag::Characteristic));
    assert_eq!(advance(ConnPhase::Ready, mode, false), Err(ErrorTag::Subscribe));
    assert_eq!(advance(ConnPhase::Subscribed, mode, false), Err(ErrorTag::Notification));
}

#[test]
fn error_messages_are_stable() {
    assert_eq!(ErrorTag::Runtime.message(), "failed to create Bluetooth runtime");
    assert_eq!(ErrorTag::Manager.message(), "failed to access Bluetooth manager");
    assert_eq!(ErrorTag::Adapter.message(), "failed to query Bluetooth adapters");
    assert_eq!(ErrorTag::Scan.message(), "failed to start Bluetooth scan");
    assert_eq!(ErrorTag::Peripheral.message(), "Bluetooth MIDI device no longer available");
    assert_eq!(ErrorTag::Connect.message(), "failed to connect to Bluetooth MIDI device");
    assert_eq!(ErrorTag::Discovery.message(), "failed to discover Bluetooth MIDI services");
    assert_eq!(
        ErrorTag::Characteristic.message(),
        "Bluetooth MIDI characteristic not available"
    );
    assert_eq!(
        ErrorTag::Subscribe.message(),
        "failed to subscribe to Bluetooth MIDI notifications"
    );
    assert_eq!(
        ErrorTag::Notification.message(),
        "failed to receive Bluetooth MIDI notifications"
    );
    assert_eq!(ErrorTag::Write.message(), "failed to send Bluetooth MIDI data");
    assert_eq!(
        ErrorTag::VirtualPort.message(),
        "virtual Bluetooth MIDI ports are not supported"
    );
}

#[test]
fn connect_error_returns_the_facade() {
    let facade = MidiInput::new("client");
    let err = ConnectError::new(ErrorTag::Scan, facade);
    assert_eq!(err.message(), "failed to start Bluetooth scan");
    let back = err.into_inner();
    assert_eq!(back.client_name, "client");
}

#[test]
fn send_error_message() {
    let err = SendError::Other(ErrorTag::Write);
    assert_eq!(err.message(), "failed to send Bluetooth MIDI data");
}

fn port(adapter_index: usize, id: &str, name: &str) -> BluetoothPort {
    BluetoothPort {
        adapter_index,
        peripheral_id: id.to_string(),
        name: name.to_string(),
    }
}

#[test]
fn port_equality_ignores_name() {
    let a = port(0, "AA:BB", "Piano");
    let b = port(0, "AA:BB", "Different Name");
    let c = port(1, "AA:BB", "Piano");
    let d = port(0, "CC:DD", "Piano");
    assert!(a == b);
    assert!(b == a);
    assert!(a != c);
    assert!(a != d);
    let ia = MidiInputPort { inner: a.clone() };
    let ib = MidiInputPort { inner: b.clone() };
    assert!(ia == ib);
    let oa = MidiOutputPort { inner: a };
    let ob = MidiOutputPort { inner: b };
    assert!(oa == ob);
}

#[test]
fn stable_id_format() {
    let p = port(3, "PeripheralId(hci0/dev_AA_BB)", "Piano");
    assert_eq!(p.stable_id(), "3:PeripheralId(hci0/dev_AA_BB)");
    let p = port(12, "x", "y");
    assert_eq!(MidiInputPort { inner: p.clone() }.id(), "12:x");
    assert_eq!(MidiOutputPort { inner: p }.id(), "12:x");
    assert_eq!(port(0, "id", "n").stable_id(), "0:id");
    assert_eq!(port(105, "id", "n").stable_id(), "105:id");
}

#[test]
fn advertisement_filtering() {
    let with_midi = vec![0x1800u128, MIDI_SERVICE_UUID];
    let without = vec![0x1800u128, 0x180Fu128];
    assert!(is_midi_device(&with_midi));
    assert!(!is_midi_device(&without));

    let p = BluetoothPort::from_advertisement(0, "id".to_string(), Some("Keys".to_string()), &with_midi);
    let p = p.unwrap();
    assert_eq!(p.name, "Keys");
    let p = BluetoothPort::from_advertisement(0, "id".to_string(), None, &with_midi).unwrap();
    assert_eq!(p.name, "Bluetooth MIDI");
    assert!(BluetoothPort::from_advertisement(0, "id".to_string(), None, &without).is_none());
}

#[test]
fn facade_state() {
    let mut input = MidiInput::new("my client");
    assert_eq!(input.client_name, "my client");
    assert_eq!(input.ignore_flags, Ignore::none());
    input.ignore(Ignore::new(true, false, true));
    assert_eq!(input.ignore_flags, Ignore::new(true, false, true));

    let port = MidiInputPort { inner: port_for_name("Piano") };
    assert_eq!(input.port_name(&port), Ok("Piano".to_string()));

    let output = MidiOutput::new("out client");
    assert_eq!(output.client_name, "out client");
    let cloned = output.clone();
    assert_eq!(cloned.client_name, "out client");
    let port = MidiOutputPort { inner: port_for_name("Synth") };
    assert_eq!(output.port_name(&port), Ok("Synth".to_string()));
}

fn port_for_name(name: &str) -> BluetoothPort {
    port(0, "id", name)
}
