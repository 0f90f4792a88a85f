use vstd::prelude::*;

verus! {

/// Waveform shapes supported by the oscillator.
#[derive(Debug, Clone, Copy, PartialEq, Eq, Structural)]
pub enum Waveform {
    Sine,
    Square,
    Sawtooth,
    Triangle,
}

} // verus!
