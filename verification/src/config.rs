//! Sizes of the wavetable engine.
use vstd::prelude::*;

verus! {

/// Samples in one oscillator wavetable.
pub const OSC_WAVE_TABLE_SIZE: usize = 1024;

/// Samples in one LFO wavetable.
pub const LFO_WAVE_TABLE_SIZE: usize = 64;

/// Voices of the wavetable engine.
pub const POLYPHONY: usize = 10;

/// LFOs of the wavetable engine.
pub const N_LFO: usize = 4;

/// Envelopes per voice.
pub const N_ENV: usize = 4;

/// Oscillators per voice.
pub const N_OSC: usize = 3;

/// Slots of the modulation matrix.
pub const MOD_MATRIX_SIZE: usize = 255;

} // verus!
