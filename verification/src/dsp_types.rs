//! Plain enumerations shared by the signal-processing modules.
use vstd::prelude::*;

verus! {

/// Stage of an ADSR envelope.
#[derive(PartialEq, Eq, Debug, Copy, Clone, Structural)]
pub enum EnvState {
    Idle,
    Attack,
    Decay,
    Sustain,
    Release,
}

/// Oscillator waveform.
#[derive(Debug, Copy, Clone, PartialEq, Eq, Structural)]
pub enum Waveform {
    Sine,
    Saw,
    Triangle,
    /// 50% duty cycle.
    Square,
    /// Duty cycle set by the oscillator's pulse width.
    PulseWidth,
}

/// Output tap of the state-variable filter.
#[derive(Debug, Clone, Copy, PartialEq, Eq, Structural)]
pub enum FilterMode {
    LowPass,
    HighPass,
    BandPass,
    Notch,
}

} // verus!
