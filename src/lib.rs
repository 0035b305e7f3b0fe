//! Voice scheduling for a polyphonic synthesizer: MIDI decoding, voice-pool
//! allocation with stealing, glide timing and the read cursor of the
//! crossfade buffer used when a sounding voice is stolen.

use vstd::prelude::*;

pub mod blep;
pub mod fade;
pub mod midi;
pub mod pool;

pub use midi::MidiEvent;
pub use pool::{GlideClock, HandleState, TriggerAction, VoicePhase, VoicePool};

verus! {

/// A MIDI note between 0 and 127.
pub type Note = u8;

} // verus!
