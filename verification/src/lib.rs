//! Control core of a polyphonic software synthesizer.
//!
//! Everything that is decided per note, per control change and per sample
//! tick lives here as integer state with proved contracts: envelope stages,
//! voice allocation, the modulation matrix and its cascading delete, the
//! cursors of the chorus delay line, effect chains, MIDI routing and the
//! step sequencer's heads.  Signal arithmetic is done by the caller, which
//! reads this state and hands sample values through as opaque bit patterns.
use vstd::prelude::*;

pub mod config;
pub mod effects;
pub mod envelope;
pub mod midi;
pub mod mod_matrix;
pub mod mod_names;
pub mod params;
pub mod sequencer;
pub mod synth_engines;

verus! {

/// Output frames per second.
pub const SAMPLE_RATE: u32 = 48_000;

/// Frames handed to the audio device per callback.
pub const CHANNEL_SIZE: usize = 1_024;

} // verus!
