//! Verified control logic of a small monophonic synthesizer: a streaming
//! MIDI parser, a step sequencer, CV note-hold and note articulation tracking,
//! and the lock-free parameter surfaces shared with the audio callback.

pub mod midi;
pub mod sequencer;
pub mod acid;
pub mod cv_gate;
pub mod shared_params;
pub mod host;
pub mod host_logic;
pub mod dsp_types;
