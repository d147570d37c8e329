use ble_midi::codec::{decode_ble_midi, encode_ble_midi_packets, expected_data_length, ParserState};

fn decode(payload: &[u8], state: &mut ParserState) -> Vec<Vec<u8>> {
    decode_ble_midi(payload, state)
}

#[test]
fn running_status_stream() {
    // header, timestamp, then three note-on messages sharing one status byte
    let payload = [0x80u8, 0x80, 0x90, 0x3C, 0x64, 0x3E, 0x64, 0x40, 0x64];
    let mut state = ParserState::new();
    let msgs = decode(&payload, &mut state);
    assert_eq!(
        msgs,
        vec![vec![0x90u8, 0x3C, 0x64], vec![0x90, 0x3E, 0x64], vec![0x90, 0x40, 0x64]]
    );
    assert_eq!(state.running_status, Some(0x90));
}

#[test]
fn system_common_clears_running_status() {
    // a Tune Request between two channel-voice messages: the second may not
    // elide its status byte, so its bare data bytes are dropped as stray
    let payload = [0x80u8, 0x80, 0x90, 0x3C, 0x64, 0x80, 0xF6, 0x3E, 0x64];
    let mut state = ParserState::new();
    let msgs = decode(&payload, &mut state);
    assert_eq!(msgs, vec![vec![0x90u8, 0x3C, 0x64], vec![0xF6]]);
    assert_eq!(state.running_status, None);
}

#[test]
fn realtime_interleaved_mid_message() {
    // a Clock byte in the middle of a note-on consumes no data byte and
    // leaves the running status alone
    let payload = [0x80u8, 0x80, 0x90, 0x3C, 0xF8, 0x64, 0x3E, 0x64];
    let mut state = ParserState::new();
    let msgs = decode(&payload, &mut state);
    assert_eq!(
        msgs,
        vec![vec![0xF8u8], vec![0x90, 0x3C, 0x64], vec![0x90, 0x3E, 0x64]]
    );
    assert_eq!(state.running_status, Some(0x90));
}

#[test]
fn realtime_between_messages_keeps_running_status() {
    // a Clock byte standing where a timestamp is expected is skipped like
    // one; the data bytes after it still use the retained running status
    let payload = [0x80u8, 0x80, 0x90, 0x3C, 0x64, 0xF8, 0x3E, 0x64];
    let mut state = ParserState::new();
    let msgs = decode(&payload, &mut state);
    assert_eq!(msgs, vec![vec![0x90u8, 0x3C, 0x64], vec![0x90, 0x3E, 0x64]]);
    assert_eq!(state.running_status, Some(0x90));
}

#[test]
fn sysex_split_across_payloads() {
    let first = [0x80u8, 0x80, 0xF0, 0x7E, 0x7F];
    let second = [0x80u8, 0x06, 0x01, 0x80, 0xF7];
    let mut state = ParserState::new();
    let msgs1 = decode(&first, &mut state);
    assert!(msgs1.is_empty());
    assert!(state.sysex_buffer.is_some());
    let msgs2 = decode(&second, &mut state);
    assert_eq!(msgs2, vec![vec![0xF0u8, 0x7E, 0x7F, 0x06, 0x01, 0xF7]]);
    assert!(state.sysex_buffer.is_none());
}

#[test]
fn truncated_sysex_is_never_emitted() {
    // the connection closes before the 0xF7 arrives: the fragment stays in
    // the parser state and is discarded with it
    let payload = [0x80u8, 0x80, 0xF0, 0x01, 0x02, 0x03];
    let mut state = ParserState::new();
    let msgs = decode(&payload, &mut state);
    assert!(msgs.is_empty());
    assert_eq!(state.sysex_buffer, Some(vec![0xF0u8, 0x01, 0x02, 0x03]));
    drop(state);
}

#[test]
fn sysex_closed_in_one_payload() {
    let payload = [0x80u8, 0x80, 0xF0, 0x01, 0x02, 0xF7];
    let mut state = ParserState::new();
    let msgs = decode(&payload, &mut state);
    assert_eq!(msgs, vec![vec![0xF0u8, 0x01, 0x02, 0xF7]]);
    assert!(state.sysex_buffer.is_none());
}

#[test]
fn bare_end_of_sysex_byte() {
    let payload = [0x80u8, 0x80, 0xF7];
    let mut state = ParserState::new();
    let msgs = decode(&payload, &mut state);
    assert_eq!(msgs, vec![vec![0xF7u8]]);
}

#[test]
fn round_trip_note_on() {
    let message = [0x90u8, 0x3C, 0x64];
    let packets = encode_ble_midi_packets(&message);
    assert_eq!(packets, vec![vec![0x80u8, 0x80, 0x90, 0x3C, 0x64]]);
    let mut state = ParserState::new();
    let msgs = decode(&packets[0], &mut state);
    assert_eq!(msgs, vec![message.to_vec()]);
}

#[test]
fn round_trip_each_message_kind() {
    // one representative for each data-byte count in the table
    for message in [
        vec![0x80u8, 0x30, 0x40], // note off
        vec![0xB7u8, 0x07, 0x7F], // control change
        vec![0xC2u8, 0x42],       // program change
        vec![0xD0u8, 0x15],       // channel pressure
        vec![0xE5u8, 0x00, 0x40], // pitch bend
        vec![0xF1u8, 0x23],       // MTC quarter frame
        vec![0xF2u8, 0x10, 0x20], // song position
        vec![0xF3u8, 0x05],       // song select
        vec![0xF6u8],             // tune request
    ] {
        let packets = encode_ble_midi_packets(&message);
        assert_eq!(packets.len(), 1);
        let mut state = ParserState::new();
        let msgs = decode(&packets[0], &mut state);
        assert_eq!(msgs, vec![message.clone()]);
    }
}

#[test]
fn round_trip_batched_messages() {
    // several short messages in one payload, each with its own timestamp
    let payload = [0x80u8, 0x81, 0x90, 0x3C, 0x64, 0xA3, 0x80, 0x3C, 0x40, 0xFF, 0xC2, 0x05];
    let mut state = ParserState::new();
    let msgs = decode(&payload, &mut state);
    assert_eq!(
        msgs,
        vec![vec![0x90u8, 0x3C, 0x64], vec![0x80, 0x3C, 0x40], vec![0xC2, 0x05]]
    );
}

#[test]
fn encoder_chunks_a_long_sysex() {
    let mut message = vec![0xF0u8];
    for k in 0..48u8 {
        message.push(k);
    }
    message.push(0xF7);
    assert_eq!(message.len(), 50);
    let packets = encode_ble_midi_packets(&message);
    assert_eq!(packets.len(), 3);
    let mut tail = Vec::new();
    for packet in &packets {
        assert!(packet.len() <= 20);
        assert_eq!(&packet[..2], &[0x80u8, 0x80]);
        tail.extend_from_slice(&packet[2..]);
    }
    assert_eq!(tail, message);
    assert_eq!(packets[0].len(), 20);
    assert_eq!(packets[1].len(), 20);
    assert_eq!(packets[2].len(), 16);
}

#[test]
fn encoder_empty_message_produces_no_packets() {
    let packets = encode_ble_midi_packets(&[]);
    assert!(packets.is_empty());
}

#[test]
fn truncated_channel_message_is_dropped() {
    let payload = [0x80u8, 0x80, 0x90, 0x3C];
    let mut state = ParserState::new();
    let msgs = decode(&payload, &mut state);
    assert!(msgs.is_empty());
    // the incomplete message did not set a running status
    assert_eq!(state.running_status, None);
}

#[test]
fn short_payloads_produce_nothing() {
    let mut state = ParserState::new();
    assert!(decode(&[], &mut state).is_empty());
    assert!(decode(&[0x80], &mut state).is_empty());
    assert_eq!(state.running_status, None);
    assert!(state.sysex_buffer.is_none());
}

#[test]
fn unknown_system_status_is_dropped_and_clears_running() {
    let payload = [0x80u8, 0x80, 0x90, 0x3C, 0x64, 0x80, 0xF4, 0x3E, 0x64];
    let mut state = ParserState::new();
    let msgs = decode(&payload, &mut state);
    assert_eq!(msgs, vec![vec![0x90u8, 0x3C, 0x64]]);
    assert_eq!(state.running_status, None);
}

#[test]
fn data_byte_table() {
    assert_eq!(expected_data_length(0x80), Some(2));
    assert_eq!(expected_data_length(0xBF), Some(2));
    assert_eq!(expected_data_length(0xC0), Some(1));
    assert_eq!(expected_data_length(0xDF), Some(1));
    assert_eq!(expected_data_length(0xE0), Some(2));
    assert_eq!(expected_data_length(0xEF), Some(2));
    assert_eq!(expected_data_length(0xF1), Some(1));
    assert_eq!(expected_data_length(0xF2), Some(2));
    assert_eq!(expected_data_length(0xF3), Some(1));
    assert_eq!(expected_data_length(0xF6), Some(0));
    assert_eq!(expected_data_length(0xF0), None);
    assert_eq!(expected_data_length(0xF7), None);
    assert_eq!(expected_data_length(0xF8), None);
    assert_eq!(expected_data_length(0x7F), None);
}

#[test]
fn arpeggio_messages_encode_to_single_writes() {
    let expected: [&[u8]; 3] = [
        &[0x80, 0x80, 0x90, 0x3C, 0x64],
        &[0x80, 0x80, 0x80, 0x3C, 0x64],
        &[0x80, 0x80, 0x90, 0x40, 0x64],
    ];
    let sends: [&[u8]; 3] = [&[0x90, 60, 100], &[0x80, 60, 100], &[0x90, 64, 100]];
    for (send, want) in sends.iter().zip(expected.iter()) {
        let packets = encode_ble_midi_packets(send);
        assert_eq!(packets.len(), 1);
        assert_eq!(packets[0].as_slice(), *want);
    }
}
