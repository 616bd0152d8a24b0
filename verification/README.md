# rust_dsp

Control logic of a small monophonic synthesizer (a 303-style acid bass for
the Daisy Pod, and a desktop host), verified with Verus.

- `src/midi.rs`: streaming, running-status MIDI parser, specified as a
  byte-by-byte transition function, with laws on real-time bytes, running
  status and SysEx.
- `src/sequencer.rs`: the built-in test melody; note-ons and note-offs pair
  up, and the tempo is exact.
- `src/acid.rs`: legato slide and accent of the acid bass.
- `src/cv_gate.rs`: edges of the CV front panel's note-hold input.
- `src/shared_params.rs`, `src/host.rs`: lock-free parameter blocks shared
  with the audio callback (bit patterns in atomics).
- `src/host_logic.rs`: key messages and key-level edges of the host.
- `src/dsp_types.rs`: enumerations of the signal path.

`app/` holds what Verus cannot check: the `f32` signal path (oscillators,
envelopes, filters, distortion, the voice), the cpal/midir host program,
the C entry points and the Daisy firmware (built only for the bare-metal
target).
