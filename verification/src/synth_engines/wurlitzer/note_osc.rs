//! One voice of the electric piano.
use crate::envelope::{ADSR, EnvState, DEFAULT_RELEASE};
use vstd::prelude::*;

verus! {

/// Attack time of both envelopes of a voice: ten milliseconds.
pub const WURLI_ATTACK: u32 = 480;

/// Decay time of the volume envelope: ten seconds.
pub const VOLUME_DECAY: u32 = 480_000;

/// Decay time of the timbre envelope: seven seconds.
pub const TIMBRE_DECAY: u32 = 336_000;

/// The all-pass stage that lets the low band through.
#[derive(Debug, Clone, Copy)]
pub struct ApLowPass {}

/// The all-pass stage that lets the high band through.
#[derive(Debug, Clone, Copy)]
pub struct ApHighPass {}

/// Mathematical value of a voice of the electric piano.
pub struct WurliState {
    /// The key that holds the voice, until its volume envelope is idle.
    pub playing: Option<u8>,
    /// How hard the key was struck.
    pub vel: u8,
    pub vol_env: EnvState,
    pub param_env: EnvState,
}

impl WurliState {
    /// A voice is held by a key exactly while its volume envelope runs.
    pub open spec fn wf(self) -> bool {
        self.playing is Some <==> !self.vol_env.idle()
    }

    /// A free voice.
    pub open spec fn initial() -> WurliState {
        WurliState {
            playing: None,
            vel: 0,
            vol_env: EnvState::fresh(
                WURLI_ATTACK as nat,
                VOLUME_DECAY as nat,
                DEFAULT_RELEASE as nat,
            ),
            param_env: EnvState::fresh(
                WURLI_ATTACK as nat,
                TIMBRE_DECAY as nat,
                DEFAULT_RELEASE as nat,
            ),
        }
    }

    /// Key `note` takes the voice: both envelopes start their attack.
    pub open spec fn press(self, note: u8, vel: u8) -> WurliState {
        WurliState {
            playing: Some(note),
            vel,
            vol_env: self.vol_env.press(),
            param_env: self.param_env.press(),
        }
    }

    pub open spec fn release(self) -> WurliState {
        WurliState {
            vol_env: self.vol_env.release(),
            param_env: self.param_env.release(),
            ..self
        }
    }

    /// One sample later: both envelopes move on, and the voice is free once
    /// its volume envelope has come to rest.
    pub open spec fn tick(self) -> WurliState {
        let vol_env = self.vol_env.tick();
        WurliState {
            vol_env,
            param_env: self.param_env.tick(),
            playing: if vol_env.idle() {
                None
            } else {
                self.playing
            },
            ..self
        }
    }
}

#[derive(Debug, Clone, Copy)]
pub struct WurliNoteOsc {
    playing: Option<u8>,
    vol_env: ADSR,
    param_env: ADSR,
    vel: u8,
}

impl View for WurliNoteOsc {
    type V = WurliState;

    closed spec fn view(&self) -> WurliState {
        WurliState {
            playing: self.playing,
            vel: self.vel,
            vol_env: self.vol_env@,
            param_env: self.param_env@,
        }
    }
}

impl WurliNoteOsc {
    pub closed spec fn wf(&self) -> bool {
        self.vol_env.wf() && self.param_env.wf() && self@.wf()
    }

    pub fn new() -> (osc: WurliNoteOsc)
        ensures
            osc.wf(),
            osc@ == WurliState::initial(),
    {
        WurliNoteOsc {
            playing: None,
            vol_env: ADSR::with_times(WURLI_ATTACK, VOLUME_DECAY, DEFAULT_RELEASE),
            param_env: ADSR::with_times(WURLI_ATTACK, TIMBRE_DECAY, DEFAULT_RELEASE),
            vel: 0,
        }
    }

    /// The key that holds the voice.
    pub fn playing(&self) -> (key: Option<u8>)
        ensures
            key == self@.playing,
    {
        self.playing
    }

    /// How hard the key was struck.
    pub fn vel(&self) -> (vel: u8)
        ensures
            vel == self@.vel,
    {
        self.vel
    }

    /// The envelope of the voice's volume.
    pub fn vol_env(&self) -> (env: ADSR)
        requires
            self.wf(),
        ensures
            env.wf(),
            env@ == self@.vol_env,
    {
        self.vol_env
    }

    /// The envelope of the voice's timbre.
    pub fn param_env(&self) -> (env: ADSR)
        requires
            self.wf(),
        ensures
            env.wf(),
            env@ == self@.param_env,
    {
        self.param_env
    }

    pub fn is_pressed(&self) -> (held: bool)
        ensures
            held == self@.vol_env.pressed(),
    {
        self.vol_env.pressed()
    }

    pub fn press(&mut self, midi_note: u8, vel: u8)
        requires
            old(self).wf(),
        ensures
            final(self).wf(),
            final(self)@ == old(self)@.press(midi_note, vel),
    {
        self.vel = vel;
        self.vol_env.press();
        self.param_env.press();
        self.playing = Some(midi_note);
    }

    pub fn release(&mut self)
        requires
            old(self).wf(),
        ensures
            final(self).wf(),
            final(self)@ == old(self)@.release(),
    {
        self.vol_env.release();
        self.param_env.release();
    }

    /// Advances the voice by one sample.
    pub fn tick(&mut self)
        requires
            old(self).wf(),
        ensures
            final(self).wf(),
            final(self)@ == old(self)@.tick(),
    {
        self.vol_env.tick();
        self.param_env.tick();
        if self.vol_env.is_idle() {
            self.playing = None;
        }
    }
}

} // verus!
