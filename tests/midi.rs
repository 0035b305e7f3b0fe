use reson::midi::MidiEvent;

#[test]
fn note_off_from_status_8x() {
    assert_eq!(
        MidiEvent::from_raw(&[0x83, 60, 40]),
        Some(MidiEvent::NoteOff { channel: 3, note: 60, velocity: 40 })
    );
}

#[test]
fn note_on_from_status_9x() {
    assert_eq!(
        MidiEvent::from_raw(&[0x9f, 127, 100]),
        Some(MidiEvent::NoteOn { channel: 15, note: 127, velocity: 100 })
    );
}

#[test]
fn pitch_bend_joins_two_seven_bit_halves() {
    assert_eq!(
        MidiEvent::from_raw(&[0xe0, 0x00, 0x40]),
        Some(MidiEvent::PitchBend { channel: 0, value: 8192 })
    );
    assert_eq!(
        MidiEvent::from_raw(&[0xe5, 0x7f, 0x7f]),
        Some(MidiEvent::PitchBend { channel: 5, value: 16383 })
    );
    assert_eq!(
        MidiEvent::from_raw(&[0xe1, 0x01, 0x00]),
        Some(MidiEvent::PitchBend { channel: 1, value: 1 })
    );
}

#[test]
fn other_status_bytes_give_no_event() {
    assert_eq!(MidiEvent::from_raw(&[0xb0, 7, 100]), None);
    assert_eq!(MidiEvent::from_raw(&[0x7f, 60, 100]), None);
    assert_eq!(MidiEvent::from_raw(&[0xf0, 0, 0]), None);
}

#[test]
fn wrong_lengths_give_no_event() {
    assert_eq!(MidiEvent::from_raw(&[]), None);
    assert_eq!(MidiEvent::from_raw(&[0x90, 60]), None);
    assert_eq!(MidiEvent::from_raw(&[0x90, 60, 100, 0]), None);
}

#[test]
fn encodings_decode_to_the_same_event() {
    for channel in 0u8..16 {
        for value in 0u8..128 {
            let on = MidiEvent::NoteOn { channel, note: value, velocity: 127 - value };
            assert_eq!(MidiEvent::from_raw(&[0x90 | channel, value, 127 - value]), Some(on));
            let off = MidiEvent::NoteOff { channel, note: 127 - value, velocity: value };
            assert_eq!(MidiEvent::from_raw(&[0x80 | channel, 127 - value, value]), Some(off));
        }
        for bend in 0u16..0x4000 {
            let raw = [0xe0 | channel, (bend & 0x7f) as u8, (bend >> 7) as u8];
            assert_eq!(MidiEvent::from_raw(&raw), Some(MidiEvent::PitchBend { channel, value: bend }));
        }
    }
}

#[test]
fn data_bytes_with_the_top_bit_set_give_no_event() {
    assert_eq!(MidiEvent::from_raw(&[0x90, 200, 100]), None);
    assert_eq!(MidiEvent::from_raw(&[0x80, 60, 0x80]), None);
    assert_eq!(MidiEvent::from_raw(&[0xe0, 0xff, 0xff]), None);
    assert_eq!(MidiEvent::from_raw(&[0xe0, 0x7f, 0x80]), None);
}
