//! The electric piano: ten voices, each with an envelope for its volume and
//! one for its timbre.
use crate::synth_engines::pool::{
    first_free, first_free_below, first_sounding, first_sounding_below, lemma_first_free_below,
    lemma_first_sounding_below, sounds,
};
use crate::synth_engines::wurlitzer::note_osc::{WurliNoteOsc, WurliState};
use vstd::prelude::*;

pub mod note_osc;

verus! {

/// Voices of the electric piano.
pub const VOICES: usize = 10;

/// The keys that the voices sound, voice by voice.
pub open spec fn wurli_keys(voices: Seq<WurliState>) -> Seq<Option<u8>> {
    Seq::new(voices.len(), |i: int| voices[i].playing)
}

/// The voices after key `note` went down: nothing changes where a voice
/// already sounds the key or none is free; else the first free voice takes
/// the key with its velocity.
pub open spec fn wurli_play(voices: Seq<WurliState>, note: u8, velocity: u8) -> Seq<WurliState> {
    if sounds(wurli_keys(voices), note) {
        voices
    } else {
        match first_free(wurli_keys(voices)) {
            None => voices,
            Some(i) => voices.update(i, voices[i].press(note, velocity)),
        }
    }
}

/// The voices after key `note` went up: the first voice that sounds the key
/// starts its release.
pub open spec fn wurli_stop(voices: Seq<WurliState>, note: u8) -> Seq<WurliState> {
    match first_sounding(wurli_keys(voices), note) {
        None => voices,
        Some(i) => voices.update(i, voices[i].release()),
    }
}

/// The voices one sample later.
pub open spec fn wurli_tick(voices: Seq<WurliState>) -> Seq<WurliState> {
    Seq::new(voices.len(), |i: int| voices[i].tick())
}

pub struct WurlitzerEngine {
    voices: Vec<WurliNoteOsc>,
}

impl View for WurlitzerEngine {
    type V = Seq<WurliState>;

    closed spec fn view(&self) -> Seq<WurliState> {
        Seq::new(self.voices@.len(), |i: int| self.voices@[i]@)
    }
}

impl WurlitzerEngine {
    pub closed spec fn wf(&self) -> bool {
        &&& self.voices@.len() == VOICES
        &&& forall|i: int| 0 <= i < VOICES ==> (#[trigger] self.voices@[i]).wf()
    }

    /// Ten free voices.
    pub fn new() -> (engine: WurlitzerEngine)
        ensures
            engine.wf(),
            engine@ == Seq::new(VOICES as nat, |i: int| WurliState::initial()),
    {
        let mut voices: Vec<WurliNoteOsc> = Vec::new();
        let mut i: usize = 0;
        while i < VOICES
            invariant
                i <= VOICES,
                voices@.len() == i,
                forall|j: int| 0 <= j < i ==> (#[trigger] voices@[j]).wf(),
                forall|j: int| 0 <= j < i ==> (#[trigger] voices@[j])@ == WurliState::initial(),
            decreases VOICES - i,
        {
            voices.push(WurliNoteOsc::new());
            i = i + 1;
        }
        let engine = WurlitzerEngine { voices };
        assert(engine@ =~= Seq::new(VOICES as nat, |i: int| WurliState::initial()));
        engine
    }

    fn find_sounding(&self, note: u8) -> (found: Option<usize>)
        requires
            self.wf(),
        ensures
            match found {
                Some(i) => first_sounding(wurli_keys(self@), note) == Some(i as int) && i < VOICES,
                None => first_sounding(wurli_keys(self@), note) is None,
            },
    {
        let ghost ks = wurli_keys(self@);
        let mut i: usize = 0;
        while i < VOICES
            invariant
                i <= VOICES,
                self.wf(),
                ks == wurli_keys(self@),
                first_sounding_below(ks, note, i as int) is None,
            decreases VOICES - i,
        {
            let hit = match self.voices[i].playing() {
                Some(key) => key == note,
                None => false,
            };
            if hit {
                proof {
                    lemma_first_sounding_below(ks, note, i as int);
                    lemma_first_sounding_below(ks, note, ks.len() as int);
                    assert(ks[i as int] == Some(note));
                }
                return Some(i);
            }
            assert(ks[i as int] != Some(note));
            i = i + 1;
        }
        None
    }

    fn find_free(&self) -> (found: Option<usize>)
        requires
            self.wf(),
        ensures
            match found {
                Some(i) => first_free(wurli_keys(self@)) == Some(i as int) && i < VOICES,
                None => first_free(wurli_keys(self@)) is None,
            },
    {
        let ghost ks = wurli_keys(self@);
        let mut i: usize = 0;
        while i < VOICES
            invariant
                i <= VOICES,
                self.wf(),
                ks == wurli_keys(self@),
                first_free_below(ks, i as int) is None,
            decreases VOICES - i,
        {
            match self.voices[i].playing() {
                None => {
                    proof {
                        lemma_first_free_below(ks, i as int);
                        lemma_first_free_below(ks, ks.len() as int);
                        assert(ks[i as int] is None);
                    }
                    return Some(i);
                },
                Some(_) => {
                    assert(ks[i as int] is Some);
                },
            }
            i = i + 1;
        }
        None
    }

    /// Key down.
    pub fn play(&mut self, note: u8, velocity: u8)
        requires
            old(self).wf(),
        ensures
            final(self).wf(),
            final(self)@ == wurli_play(old(self)@, note, velocity),
    {
        proof {
            lemma_first_sounding_below(
                wurli_keys(self@),
                note,
                wurli_keys(self@).len() as int,
            );
        }
        match self.find_sounding(note) {
            Some(i) => {
                assert(wurli_keys(self@)[i as int] == Some(note));
            },
            None => {
                match self.find_free() {
                    Some(i) => {
                        self.voices[i].press(note, velocity);
                        assert(self@ =~= wurli_play(old(self)@, note, velocity));
                    },
                    None => {},
                }
            },
        }
    }

    /// Key up.
    pub fn stop(&mut self, note: u8)
        requires
            old(self).wf(),
        ensures
            final(self).wf(),
            final(self)@ == wurli_stop(old(self)@, note),
    {
        match self.find_sounding(note) {
            Some(i) => {
                self.voices[i].release();
                assert(self@ =~= wurli_stop(old(self)@, note));
            },
            None => {},
        }
    }

    /// One sample later.
    pub fn tick(&mut self)
        requires
            old(self).wf(),
        ensures
            final(self).wf(),
            final(self)@ == wurli_tick(old(self)@),
    {
        let ghost before = self@;
        let mut i: usize = 0;
        while i < VOICES
            invariant
                i <= VOICES,
                self.voices@.len() == VOICES,
                before == old(self)@,
                before.len() == VOICES,
                forall|j: int| 0 <= j < VOICES ==> (#[trigger] self.voices@[j]).wf(),
                forall|j: int| 0 <= j < i ==> (#[trigger] self.voices@[j])@ == before[j].tick(),
                forall|j: int| i <= j < VOICES ==> (#[trigger] self.voices@[j])@ == before[j],
            decreases VOICES - i,
        {
            self.voices[i].tick();
            i = i + 1;
        }
        assert(self@ =~= wurli_tick(before));
    }

    /// Voice `i`.
    pub fn voice(&self, i: usize) -> (voice: &WurliNoteOsc)
        requires
            self.wf(),
            i < VOICES,
        ensures
            voice.wf(),
            voice@ == self@[i as int],
    {
        &self.voices[i]
    }

    pub fn name(&self) -> (name: String)
        ensures
            name@ == "Wurlitzer"@,
    {
        "Wurlitzer".to_string()
    }
}

} // verus!
