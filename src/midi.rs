use vstd::prelude::*;

use crate::Note;

verus! {

/// A MIDI event that a synthesizer can interpret.
#[derive(Copy, Clone, PartialEq, Eq, Structural, Debug)]
pub enum MidiEvent {
    NoteOn { channel: u8, note: Note, velocity: u8 },
    NoteOff { channel: u8, note: Note, velocity: u8 },
    PitchBend { channel: u8, value: u16 },
}

/// The 14-bit pitch-bend value carried by a least and a most significant byte.
pub open spec fn bend_value(lsb: u8, msb: u8) -> u16 {
    (lsb as u16) | ((msb as u16) << 7u16)
}

/// The event that three raw bytes stand for: the high nibble of the status byte
/// selects the kind, its low nibble is the channel, and both data bytes have
/// their top bit clear; anything else is no event.
pub open spec fn decode(data: Seq<u8>) -> Option<MidiEvent> {
    if data.len() != 3 || data[1] >= 0x80 || data[2] >= 0x80 {
        None
    } else {
        let status = data[0];
        if 0x80 <= status <= 0x8f {
            Some(MidiEvent::NoteOff { channel: status & 0x0f, note: data[1], velocity: data[2] })
        } else if 0x90 <= status <= 0x9f {
            Some(MidiEvent::NoteOn { channel: status & 0x0f, note: data[1], velocity: data[2] })
        } else if 0xe0 <= status <= 0xef {
            Some(MidiEvent::PitchBend { channel: status & 0x0f, value: bend_value(data[1], data[2]) })
        } else {
            None
        }
    }
}

/// The byte encoding of an event on the wire.
pub open spec fn encode(e: MidiEvent) -> Seq<u8> {
    match e {
        MidiEvent::NoteOff { channel, note, velocity } => seq![0x80u8 | channel, note, velocity],
        MidiEvent::NoteOn { channel, note, velocity } => seq![0x90u8 | channel, note, velocity],
        MidiEvent::PitchBend { channel, value } => seq![
            0xe0u8 | channel,
            (value & 0x7f) as u8,
            (value >> 7u16) as u8,
        ],
    }
}

impl MidiEvent {
    /// Channels have four bits, notes and velocities seven, bend values fourteen.
    pub open spec fn is_valid(self) -> bool {
        match self {
            MidiEvent::NoteOff { channel, note, velocity } => channel < 16 && note < 128 && velocity < 128,
            MidiEvent::NoteOn { channel, note, velocity } => channel < 16 && note < 128 && velocity < 128,
            MidiEvent::PitchBend { channel, value } => channel < 16 && value < 0x4000,
        }
    }

    /// Creates a MIDI event from raw bytes; bytes of any other shape give no event.
    pub fn from_raw(data: &[u8]) -> (r: Option<Self>)
        ensures
            r == decode(data@),
            r matches Some(e) ==> e.is_valid(),
    {
        if data.len() != 3 {
            return None;
        }
        let status = data[0];
        let a = data[1];
        let b = data[2];
        if a >= 0x80 || b >= 0x80 {
            return None;
        }
        assert(status & 0x0f < 16) by (bit_vector);
        assert((a as u16) | ((b as u16) << 7u16) < 0x4000) by (bit_vector)
            requires a < 0x80 && b < 0x80;
        if 0x80 <= status && status <= 0x8f {
            Some(MidiEvent::NoteOff { channel: status & 0x0f, note: a, velocity: b })
        } else if 0x90 <= status && status <= 0x9f {
            Some(MidiEvent::NoteOn { channel: status & 0x0f, note: a, velocity: b })
        } else if 0xe0 <= status && status <= 0xef {
            Some(MidiEvent::PitchBend { channel: status & 0x0f, value: (a as u16) | ((b as u16) << 7u16) })
        } else {
            None
        }
    }
}

/// Decoding the byte encoding of a well-formed event gives that event back.
pub proof fn lemma_decode_encode(e: MidiEvent)
    requires
        e.is_valid(),
    ensures
        decode(encode(e)) == Some(e),
{
    match e {
        MidiEvent::NoteOff { channel, note, velocity } => {
            assert(0x80 <= (0x80u8 | channel) <= 0x8f && (0x80u8 | channel) & 0x0f == channel)
                by (bit_vector)
                requires channel < 16;
        },
        MidiEvent::NoteOn { channel, note, velocity } => {
            assert(0x90 <= (0x90u8 | channel) <= 0x9f && (0x90u8 | channel) & 0x0f == channel)
                by (bit_vector)
                requires channel < 16;
        },
        MidiEvent::PitchBend { channel, value } => {
            assert(0xe0 <= (0xe0u8 | channel) <= 0xef && (0xe0u8 | channel) & 0x0f == channel)
                by (bit_vector)
                requires channel < 16;
            let lsb = (value & 0x7f) as u8;
            let msb = (value >> 7u16) as u8;
            assert(((value & 0x7f) as u8 as u16) | (((value >> 7u16) as u8 as u16) << 7u16) == value
                && ((value & 0x7f) as u8) < 0x80 && ((value >> 7u16) as u8) < 0x80)
                by (bit_vector)
                requires value < 0x4000;
            assert(bend_value(lsb, msb) == value);
        },
    }
}

} // verus!
