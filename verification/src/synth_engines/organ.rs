//! The organ: ten voices that share one drawbar wavetable.
use crate::synth_engines::pool::lemma_first_sounding_below;
use crate::envelope::EnvTime;
use crate::synth_engines::synth_common::{
    find_free, find_sounding, keys, new_pool, pool_play, pool_stop, pool_view, pool_wf, set_pool_time,
    tick_all, tick_pool, with_time_all, OscState, Oscillator,
};
use vstd::prelude::*;

verus! {

/// Samples in the organ's wavetable.
pub const WAVE_TABLE_SIZE: usize = 126;

/// Voices of the organ.
pub const VOICES: usize = 10;

/// Drawbars of the organ.
pub const DRAWBARS: usize = 8;

#[derive(Clone, Copy, PartialEq, Eq, Structural, Debug)]
pub enum OscType {
    Sin,
    Tri,
    Sqr,
    Saw,
}

pub struct Organ {
    osc_s: Vec<Oscillator>,
    osc_type: OscType,
}

impl View for Organ {
    type V = Seq<OscState>;

    closed spec fn view(&self) -> Seq<OscState> {
        pool_view(self.osc_s@)
    }
}

impl Organ {
    pub closed spec fn wf(&self) -> bool {
        &&& self.osc_s@.len() == VOICES
        &&& pool_wf(self.osc_s@)
    }

    /// The shape of the organ's wavetable.
    pub closed spec fn shape(&self) -> OscType {
        self.osc_type
    }

    /// Ten free voices.
    pub fn new() -> (organ: Organ)
        ensures
            organ.wf(),
            organ@ == Seq::new(VOICES as nat, |i: int| OscState::initial()),
            organ.shape() == OscType::Sin,
    {
        Organ { osc_s: new_pool(VOICES), osc_type: OscType::Sin }
    }

    /// Key down.  The velocity does not reach the organ's voices.
    pub fn play(&mut self, midi_note: u8, _velocity: u8)
        requires
            old(self).wf(),
        ensures
            final(self).wf(),
            final(self)@ == pool_play(old(self)@, midi_note),
            final(self).shape() == old(self).shape(),
    {
        proof {
            lemma_first_sounding_below(keys(self@), midi_note, keys(self@).len() as int);
        }
        match find_sounding(&self.osc_s, midi_note) {
            Some(i) => {
                assert(keys(self@)[i as int] == Some(midi_note));
            },
            None => {
                match find_free(&self.osc_s) {
                    Some(i) => {
                        let mut osc = self.osc_s[i];
                        osc.press(midi_note);
                        self.osc_s.set(i, osc);
                        assert(self@ =~= pool_play(old(self)@, midi_note));
                    },
                    None => {},
                }
            },
        }
    }

    /// Key up.
    pub fn stop(&mut self, midi_note: u8)
        requires
            old(self).wf(),
        ensures
            final(self).wf(),
            final(self)@ == pool_stop(old(self)@, midi_note),
            final(self).shape() == old(self).shape(),
    {
        match find_sounding(&self.osc_s, midi_note) {
            Some(i) => {
                let mut osc = self.osc_s[i];
                osc.release();
                self.osc_s.set(i, osc);
                assert(self@ =~= pool_stop(old(self)@, midi_note));
            },
            None => {},
        }
    }

    /// One sample later: every voice moves on and finished voices come free.
    pub fn tick(&mut self)
        requires
            old(self).wf(),
        ensures
            final(self).wf(),
            final(self)@ == tick_all(old(self)@),
            final(self).shape() == old(self).shape(),
    {
        tick_pool(&mut self.osc_s);
    }

    /// Sets the attack time of every voice, in samples.
    pub fn set_atk(&mut self, samples: u32)
        requires
            old(self).wf(),
        ensures
            final(self).wf(),
            final(self)@ == with_time_all(old(self)@, EnvTime::Attack, samples as nat),
            final(self).shape() == old(self).shape(),
    {
        set_pool_time(&mut self.osc_s, EnvTime::Attack, samples);
    }

    /// Sets the decay time of every voice, in samples.
    pub fn set_decay(&mut self, samples: u32)
        requires
            old(self).wf(),
        ensures
            final(self).wf(),
            final(self)@ == with_time_all(old(self)@, EnvTime::Decay, samples as nat),
            final(self).shape() == old(self).shape(),
    {
        set_pool_time(&mut self.osc_s, EnvTime::Decay, samples);
    }

    /// Sets the release time of every voice, in samples.
    pub fn set_release(&mut self, samples: u32)
        requires
            old(self).wf(),
        ensures
            final(self).wf(),
            final(self)@ == with_time_all(old(self)@, EnvTime::Release, samples as nat),
            final(self).shape() == old(self).shape(),
    {
        set_pool_time(&mut self.osc_s, EnvTime::Release, samples);
    }

    pub fn name(&self) -> (name: String)
        ensures
            name@ == "Organ"@,
    {
        "Organ".to_string()
    }

    /// The shape of the organ's wavetable.
    pub fn osc_type(&self) -> (shape: OscType)
        ensures
            shape == self.shape(),
    {
        self.osc_type
    }

    /// Sets the shape of the organ's wavetable.
    pub fn set_osc_type(&mut self, shape: OscType)
        ensures
            final(self).shape() == shape,
            final(self)@ == old(self)@,
            old(self).wf() ==> final(self).wf(),
    {
        self.osc_type = shape;
    }

    /// The voice in slot `i`.
    pub fn voice(&self, i: usize) -> (osc: Oscillator)
        requires
            self.wf(),
            i < VOICES,
        ensures
            osc.wf(),
            osc@ == self@[i as int],
    {
        self.osc_s[i]
    }
}

} // verus!
