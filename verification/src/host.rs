//! Control logic of the desktop host: the parameter block shared between the
//! MIDI input thread and the audio callback, the key handling of incoming
//! MIDI messages.
use crate::host_logic::releases_key;
use core::sync::atomic::AtomicU32;
use core::sync::atomic::AtomicU8;
use core::sync::atomic::Ordering;
use vstd::prelude::*;

verus! {

/// `110.0_f32.to_bits()`: the frequency the host starts with (A2).
pub const INITIAL_FREQ_BITS: u32 = 0x42DC_0000;

/// Parameters written by the MIDI thread and read by the audio callback.
/// The frequency is held as the bit pattern of an `f32`.
///
/// Each field is a relaxed atomic that either thread may write at any time,
/// so a read returns whatever the last store left; the contracts below state
/// nothing of the values, which stay opaque to verification.
#[derive(Debug)]
pub struct Params {
    pub freq: AtomicU32,
    pub gate: AtomicU8,
    pub vel: AtomicU8,
    /// The MIDI note that holds the key down.
    pub midi: AtomicU8,
}

impl Params {
    pub fn new() -> Self {
        Params {
            freq: AtomicU32::new(INITIAL_FREQ_BITS),
            gate: AtomicU8::new(0),
            vel: AtomicU8::new(0),
            midi: AtomicU8::new(0),
        }
    }

    pub fn get_freq_bits(&self) -> u32 {
        self.freq.load(Ordering::Relaxed)
    }

    pub fn get_gate(&self) -> u8 {
        self.gate.load(Ordering::Relaxed)
    }

    pub fn get_vel(&self) -> u8 {
        self.vel.load(Ordering::Relaxed)
    }

    pub fn get_midi(&self) -> u8 {
        self.midi.load(Ordering::Relaxed)
    }

    pub fn set_freq_bits(&self, bits: u32) {
        self.freq.store(bits, Ordering::Relaxed);
    }

    pub fn set_gate(&self, gate: u8) {
        self.gate.store(gate, Ordering::Relaxed);
    }

    pub fn set_vel(&self, vel: u8) {
        self.vel.store(vel, Ordering::Relaxed);
    }

    pub fn set_midi(&self, midi: u8) {
        self.midi.store(midi, Ordering::Relaxed);
    }
}

/// Press the key `midi_note`, at frequency `freq_bits` (an `f32` bit
/// pattern) and velocity `vel`.
pub fn key_on(midi_note: u8, vel: u8, freq_bits: u32, state: &Params) {
    state.set_freq_bits(freq_bits);
    state.set_gate(1);
    state.set_vel(vel);
    state.set_midi(midi_note);
}

/// Lift the key, if `midi_note` is the one held.
pub fn key_off(midi_note: u8, state: &Params) {
    let active_midi_note = state.get_midi();
    if releases_key(midi_note, active_midi_note) {
        state.set_gate(0);
        state.set_vel(0);
    }
}

} // verus!
