use ble_midi::filter::{filter_messages, should_ignore, Ignore};
use ble_midi::worker::process_payload;
use ble_midi::ParserState;

#[test]
fn ignore_table() {
    let none = Ignore::none();
    let sysex = Ignore::new(true, false, false);
    let time = Ignore::new(false, true, false);
    let sense = Ignore::new(false, false, true);
    assert!(!should_ignore(none, 0xF0));
    assert!(!should_ignore(none, 0xF1));
    assert!(!should_ignore(none, 0xF8));
    assert!(!should_ignore(none, 0xFE));
    assert!(should_ignore(sysex, 0xF0));
    assert!(!should_ignore(sysex, 0xF1));
    assert!(should_ignore(time, 0xF1));
    assert!(should_ignore(time, 0xF8));
    assert!(!should_ignore(time, 0xFE));
    assert!(should_ignore(sense, 0xFE));
    assert!(!should_ignore(sense, 0xF8));
    // channel-voice messages always pass
    assert!(!should_ignore(Ignore::new(true, true, true), 0x90));
}

#[test]
fn filter_preserves_order_and_drops_empties() {
    let flags = Ignore::new(false, true, false);
    let msgs = vec![
        vec![0x90u8, 0x3C, 0x64],
        vec![0xF8u8],
        vec![],
        vec![0x80u8, 0x3C, 0x40],
    ];
    let out = filter_messages(msgs, flags);
    assert_eq!(out, vec![vec![0x90u8, 0x3C, 0x64], vec![0x80, 0x3C, 0x40]]);
}

#[test]
fn active_sensing_ignored() {
    let payload = [0x80u8, 0x80, 0xFE];
    let mut state = ParserState::new();
    let out = process_payload(&payload, Ignore::new(false, false, true), &mut state);
    assert!(out.is_empty());

    let mut state = ParserState::new();
    let out = process_payload(&payload, Ignore::none(), &mut state);
    assert_eq!(out, vec![vec![0xFEu8]]);
}

#[test]
fn note_on_stream_reaches_callback_in_order() {
    let payload = [0x80u8, 0x80, 0x90, 0x3C, 0x64, 0x3E, 0x64];
    let mut state = ParserState::new();
    let out = process_payload(&payload, Ignore::none(), &mut state);
    assert_eq!(out, vec![vec![0x90u8, 0x3C, 0x64], vec![0x90, 0x3E, 0x64]]);
}

#[test]
fn sysex_dropped_when_ignored() {
    let payload = [0x80u8, 0x80, 0xF0, 0x01, 0x02, 0xF7];
    let mut state = ParserState::new();
    let out = process_payload(&payload, Ignore::new(true, false, false), &mut state);
    assert!(out.is_empty());
    let mut state = ParserState::new();
    let out = process_payload(&payload, Ignore::none(), &mut state);
    assert_eq!(out, vec![vec![0xF0u8, 0x01, 0x02, 0xF7]]);
}
