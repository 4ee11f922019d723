//! The voice that the organ and the subtractive synth are built from.
use crate::envelope::{ADSR, EnvStage, EnvState, EnvTime};
use crate::synth_engines::pool::{
    first_free, first_free_below, first_sounding, first_sounding_below, lemma_first_free_below,
    lemma_first_sounding_below, lemma_sounding_below_bound, lemma_sounding_below_claim,
    lemma_sounding_below_full, sounding_count, sounds,
};
use vstd::prelude::*;

verus! {

/// Mathematical value of an oscillator voice.
pub struct OscState {
    /// The key that holds the voice, until its envelope is idle again.
    pub playing: Option<u8>,
    /// The note that the voice is tuned to.
    pub pitch: u8,
    pub env: EnvState,
}

impl OscState {
    /// A free voice.
    pub open spec fn initial() -> OscState {
        OscState { playing: None, pitch: 0, env: EnvState::initial() }
    }

    /// A voice is held by a key exactly while its envelope is not idle.
    pub open spec fn wf(self) -> bool {
        self.playing is Some <==> !self.env.idle()
    }

    /// Key `key` takes the voice, tuned to `pitch`.
    pub open spec fn press(self, key: u8, pitch: u8) -> OscState {
        OscState { playing: Some(key), pitch, env: self.env.press() }
    }

    pub open spec fn release(self) -> OscState {
        OscState { env: self.env.release(), ..self }
    }

    /// One sample later: the envelope moves on, and a voice whose envelope
    /// has come to rest is free again.
    pub open spec fn tick(self) -> OscState {
        let env = self.env.tick();
        OscState {
            env,
            playing: if env.idle() {
                None
            } else {
                self.playing
            },
            ..self
        }
    }

    /// `n` samples later.
    pub open spec fn ticks(self, n: nat) -> OscState
        decreases n,
    {
        if n == 0 {
            self
        } else {
            self.tick().ticks((n - 1) as nat)
        }
    }

    /// The voice with one of its envelope's times set.
    pub open spec fn with_time(self, which: EnvTime, samples: nat) -> OscState {
        OscState { env: self.env.with_time(which, samples), ..self }
    }

    /// The key is held down: the envelope is in attack, decay or sustain.
    pub open spec fn held(self) -> bool {
        self.env.pressed()
    }
}

/// The keys that the voices of a pool sound, slot by slot.
pub open spec fn keys(voices: Seq<OscState>) -> Seq<Option<u8>> {
    Seq::new(voices.len(), |i: int| voices[i].playing)
}

/// Every voice one sample later.
pub open spec fn tick_all(voices: Seq<OscState>) -> Seq<OscState> {
    Seq::new(voices.len(), |i: int| voices[i].tick())
}

/// Every voice with one of its envelope's times set.
pub open spec fn with_time_all(voices: Seq<OscState>, which: EnvTime, samples: nat) -> Seq<
    OscState,
> {
    Seq::new(voices.len(), |i: int| voices[i].with_time(which, samples))
}

/// The pool after key `note` goes down: nothing changes where a voice
/// already sounds the key or none is free; else the first free voice takes
/// the key.
pub open spec fn pool_play(voices: Seq<OscState>, note: u8) -> Seq<OscState> {
    if sounds(keys(voices), note) {
        voices
    } else {
        match first_free(keys(voices)) {
            None => voices,
            Some(i) => voices.update(i, voices[i].press(note, note)),
        }
    }
}

/// The pool after key `note` goes up: the first voice that sounds the key
/// starts its release.
pub open spec fn pool_stop(voices: Seq<OscState>, note: u8) -> Seq<OscState> {
    match first_sounding(keys(voices), note) {
        None => voices,
        Some(i) => voices.update(i, voices[i].release()),
    }
}

/// Every voice `n` samples later.
pub open spec fn ticks_all(voices: Seq<OscState>, n: nat) -> Seq<OscState>
    decreases n,
{
    if n == 0 {
        voices
    } else {
        ticks_all(tick_all(voices), (n - 1) as nat)
    }
}

/// One voice: an envelope, the key that holds it and the note it is tuned to.
#[derive(Clone, Copy, Debug)]
pub struct Oscillator {
    env_filter: ADSR,
    playing: Option<u8>,
    pitch: u8,
}

impl View for Oscillator {
    type V = OscState;

    closed spec fn view(&self) -> OscState {
        OscState { playing: self.playing, pitch: self.pitch, env: self.env_filter@ }
    }
}

impl Oscillator {
    pub closed spec fn wf(&self) -> bool {
        self.env_filter.wf() && self@.wf()
    }

    /// A free voice.
    pub fn new() -> (osc: Oscillator)
        ensures
            osc.wf(),
            osc@ == OscState::initial(),
    {
        Oscillator { env_filter: ADSR::new(), playing: None, pitch: 0 }
    }

    /// The key that holds the voice.
    pub fn playing(&self) -> (key: Option<u8>)
        ensures
            key == self@.playing,
    {
        self.playing
    }

    /// The note that the voice is tuned to.
    pub fn pitch(&self) -> (pitch: u8)
        ensures
            pitch == self@.pitch,
    {
        self.pitch
    }

    /// The voice's envelope.
    pub fn env_filter(&self) -> (env: ADSR)
        requires
            self.wf(),
        ensures
            env.wf(),
            env@ == self@.env,
    {
        self.env_filter
    }

    pub fn is_pressed(&self) -> (held: bool)
        ensures
            held == self@.held(),
    {
        self.env_filter.pressed()
    }

    /// Key `midi_note` takes the voice.
    pub fn press(&mut self, midi_note: u8)
        requires
            old(self).wf(),
        ensures
            final(self).wf(),
            final(self)@ == old(self)@.press(midi_note, midi_note),
    {
        self.press_tuned(midi_note, midi_note);
    }

    /// Key `key` takes the voice, which sounds the note `pitch`.
    pub fn press_tuned(&mut self, key: u8, pitch: u8)
        requires
            old(self).wf(),
        ensures
            final(self).wf(),
            final(self)@ == old(self)@.press(key, pitch),
    {
        self.env_filter.press();
        self.pitch = pitch;
        self.playing = Some(key);
    }

    pub fn release(&mut self)
        requires
            old(self).wf(),
        ensures
            final(self).wf(),
            final(self)@ == old(self)@.release(),
    {
        self.env_filter.release();
    }

    /// Advances the voice by one sample and frees it when its envelope has
    /// come to rest.
    pub fn tick(&mut self)
        requires
            old(self).wf(),
        ensures
            final(self).wf(),
            final(self)@ == old(self)@.tick(),
    {
        self.env_filter.tick();
        if self.env_filter.is_idle() {
            self.playing = None;
        }
    }

    /// Sets one of the times of the voice's envelope, in samples.
    pub fn set_time(&mut self, which: EnvTime, samples: u32)
        requires
            old(self).wf(),
        ensures
            final(self).wf(),
            final(self)@ == old(self)@.with_time(which, samples as nat),
    {
        self.env_filter.set_time(which, samples);
    }
}

/// A pool of `n` free voices.
pub fn new_pool(n: usize) -> (voices: Vec<Oscillator>)
    ensures
        pool_wf(voices@),
        voices@.len() == n,
        pool_view(voices@) == Seq::new(n as nat, |i: int| OscState::initial()),
{
    let mut voices: Vec<Oscillator> = Vec::new();
    let mut i: usize = 0;
    while i < n
        invariant
            i <= n,
            voices@.len() == i,
            pool_wf(voices@),
            forall|j: int| 0 <= j < i ==> (#[trigger] voices@[j])@ == OscState::initial(),
        decreases n - i,
    {
        voices.push(Oscillator::new());
        i = i + 1;
    }
    assert(pool_view(voices@) =~= Seq::new(n as nat, |i: int| OscState::initial()));
    voices
}

/// The values of a pool's voices, slot by slot.
pub open spec fn pool_view(voices: Seq<Oscillator>) -> Seq<OscState> {
    Seq::new(voices.len(), |i: int| voices[i]@)
}

/// Every voice of the pool well formed.
pub open spec fn pool_wf(voices: Seq<Oscillator>) -> bool {
    forall|i: int| 0 <= i < voices.len() ==> (#[trigger] voices[i]).wf()
}

/// The first free voice of a pool.
pub fn find_free(voices: &Vec<Oscillator>) -> (found: Option<usize>)
    ensures
        match found {
            Some(i) => first_free(keys(pool_view(voices@))) == Some(i as int) && i < voices@.len(),
            None => first_free(keys(pool_view(voices@))) is None,
        },
{
    let ghost ks = keys(pool_view(voices@));
    let mut i: usize = 0;
    while i < voices.len()
        invariant
            i <= voices@.len(),
            ks == keys(pool_view(voices@)),
            first_free_below(ks, i as int) is None,
        decreases voices@.len() - i,
    {
        match voices[i].playing() {
            None => {
                proof {
                    lemma_first_free_below(ks, i as int);
                    lemma_first_free_below(ks, ks.len() as int);
                    assert(ks[i as int] is None);
                }
                return Some(i);
            },
            Some(_) => {
                assert(ks[i as int] is Some);
            },
        }
        i = i + 1;
    }
    None
}

/// The first voice of a pool that sounds `note`.
pub fn find_sounding(voices: &Vec<Oscillator>, note: u8) -> (found: Option<usize>)
    ensures
        match found {
            Some(i) => first_sounding(keys(pool_view(voices@)), note) == Some(i as int) && i
                < voices@.len(),
            None => first_sounding(keys(pool_view(voices@)), note) is None,
        },
{
    let ghost ks = keys(pool_view(voices@));
    let mut i: usize = 0;
    while i < voices.len()
        invariant
            i <= voices@.len(),
            ks == keys(pool_view(voices@)),
            first_sounding_below(ks, note, i as int) is None,
        decreases voices@.len() - i,
    {
        let hit = match voices[i].playing() {
            Some(key) => key == note,
            None => false,
        };
        if hit {
            proof {
                lemma_first_sounding_below(ks, note, i as int);
                lemma_first_sounding_below(ks, note, ks.len() as int);
                assert(ks[i as int] == Some(note));
            }
            return Some(i);
        }
        assert(ks[i as int] != Some(note));
        i = i + 1;
    }
    None
}

/// Advances every voice of a pool by one sample.
pub fn tick_pool(voices: &mut Vec<Oscillator>)
    requires
        pool_wf(old(voices)@),
    ensures
        pool_wf(final(voices)@),
        final(voices)@.len() == old(voices)@.len(),
        pool_view(final(voices)@) == tick_all(pool_view(old(voices)@)),
{
    let n = voices.len();
    let mut i: usize = 0;
    while i < n
        invariant
            i <= n,
            voices@.len() == n,
            old(voices)@.len() == n,
            pool_wf(voices@),
            forall|j: int| 0 <= j < i ==> (#[trigger] voices@[j])@ == old(voices)@[j]@.tick(),
            forall|j: int| i <= j < n ==> (#[trigger] voices@[j]) == old(voices)@[j],
        decreases n - i,
    {
        let mut osc = voices[i];
        osc.tick();
        voices.set(i, osc);
        i = i + 1;
    }
    assert(pool_view(voices@) =~= tick_all(pool_view(old(voices)@)));
}

/// Sets one of the envelope times of every voice of a pool.
pub fn set_pool_time(voices: &mut Vec<Oscillator>, which: EnvTime, samples: u32)
    requires
        pool_wf(old(voices)@),
    ensures
        pool_wf(final(voices)@),
        final(voices)@.len() == old(voices)@.len(),
        pool_view(final(voices)@) == with_time_all(
            pool_view(old(voices)@),
            which,
            samples as nat,
        ),
{
    let n = voices.len();
    let mut i: usize = 0;
    while i < n
        invariant
            i <= n,
            voices@.len() == n,
            old(voices)@.len() == n,
            pool_wf(voices@),
            forall|j: int|
                0 <= j < i ==> (#[trigger] voices@[j])@ == old(voices)@[j]@.with_time(
                    which,
                    samples as nat,
                ),
            forall|j: int| i <= j < n ==> (#[trigger] voices@[j]) == old(voices)@[j],
        decreases n - i,
    {
        let mut osc = voices[i];
        osc.set_time(which, samples);
        voices.set(i, osc);
        i = i + 1;
    }
    assert(pool_view(voices@) =~= with_time_all(pool_view(old(voices)@), which, samples as nat));
}

/// A voice that is held and never released keeps its key through any number
/// of samples.
pub proof fn lemma_held_voice_keeps_key(s: OscState, n: nat)
    requires
        s.wf(),
        s.held(),
    ensures
        s.ticks(n).held(),
        s.ticks(n).playing == s.playing,
        s.ticks(n).wf(),
    decreases n,
{
    if n > 0 {
        lemma_held_voice_keeps_key(s.tick(), (n - 1) as nat);
    }
}

/// A released voice keeps its key while the release runs and is free when
/// the release time is up.
pub proof fn lemma_released_voice_comes_free(s: OscState, n: nat)
    requires
        s.wf(),
        s.env.stage == EnvStage::Release,
        n <= s.env.remaining(),
    ensures
        n < s.env.remaining() ==> s.ticks(n).playing == s.playing && s.ticks(n).env.stage
            == EnvStage::Release,
        n == s.env.remaining() ==> s.ticks(n).playing is None && s.ticks(n).env.idle(),
        s.ticks(n).wf(),
    decreases n,
{
    if n > 0 {
        let t = s.tick();
        if t.env.stage == EnvStage::Release {
            assert(t.env.remaining() == s.env.remaining() - 1);
            lemma_released_voice_comes_free(t, (n - 1) as nat);
        } else {
            assert(s.env.remaining() == 1);
            assert(t.ticks(0) == t);
        }
    }
}

/// Ticking a pool ticks each of its voices.
pub proof fn lemma_ticks_all_pointwise(voices: Seq<OscState>, n: nat, i: int)
    requires
        0 <= i < voices.len(),
    ensures
        ticks_all(voices, n).len() == voices.len(),
        ticks_all(voices, n)[i] == voices[i].ticks(n),
    decreases n,
{
    if n > 0 {
        lemma_ticks_all_pointwise(tick_all(voices), (n - 1) as nat, i);
    }
}

/// A key-down never makes a pool sound more notes than it has voices, and
/// never changes the number of voices.
pub proof fn lemma_play_stays_within_pool(voices: Seq<OscState>, note: u8)
    ensures
        pool_play(voices, note).len() == voices.len(),
        sounding_count(keys(pool_play(voices, note))) <= voices.len(),
{
    let after = pool_play(voices, note);
    lemma_first_free_below(keys(voices), keys(voices).len() as int);
    lemma_sounding_below_bound(keys(after), keys(after).len() as int);
}

/// A key-down on a pool whose voices all sound is dropped: the pool is as it
/// was.
pub proof fn lemma_full_pool_drops_key(voices: Seq<OscState>, note: u8)
    requires
        forall|i: int| 0 <= i < voices.len() ==> (#[trigger] voices[i]).playing is Some,
    ensures
        pool_play(voices, note) == voices,
        sounding_count(keys(voices)) == voices.len(),
{
    let ks = keys(voices);
    assert forall|j: int| 0 <= j < ks.len() implies (#[trigger] ks[j]) is Some by {
        assert(voices[j].playing is Some);
    }
    lemma_first_free_below(ks, ks.len() as int);
    lemma_sounding_below_full(ks, ks.len() as int);
}

/// A key-down for a note that no voice sounds claims the first free voice,
/// where there is one: that voice then sounds the note from the start of its
/// attack, every other voice is untouched, and one more voice sounds.
pub proof fn lemma_free_voice_is_claimed(voices: Seq<OscState>, note: u8, free: int)
    requires
        0 <= free < voices.len(),
        voices[free].playing is None,
        !sounds(keys(voices), note),
    ensures
        first_free(keys(voices)) is Some,
        ({
            let i = first_free(keys(voices)).unwrap();
            let after = pool_play(voices, note);
            &&& 0 <= i <= free
            &&& after.len() == voices.len()
            &&& after[i].playing == Some(note)
            &&& after[i].env.stage == EnvStage::Attack
            &&& after[i].env.elapsed == 0
            &&& forall|j: int| 0 <= j < voices.len() && j != i ==> after[j] == voices[j]
            &&& sounds(keys(after), note)
            &&& sounding_count(keys(after)) == sounding_count(keys(voices)) + 1
        }),
{
    let ks = keys(voices);
    lemma_first_free_below(ks, ks.len() as int);
    assert(ks[free] is None);
    let i = first_free(ks).unwrap();
    let after = pool_play(voices, note);
    assert(keys(after) =~= ks.update(i, Some(note)));
    assert(keys(after)[i] == Some(note));
    lemma_sounding_below_claim(ks, i, note, ks.len() as int);
}

/// A voice that was released is free once its release time has run, and the
/// next key-down for a note that no voice sounds finds a voice to claim.
pub proof fn lemma_released_voice_is_reusable(voices: Seq<OscState>, i: int, note: u8)
    requires
        0 <= i < voices.len(),
        voices[i].wf(),
        voices[i].env.stage == EnvStage::Release,
    ensures
        ({
            let later = ticks_all(voices, voices[i].env.remaining());
            &&& later.len() == voices.len()
            &&& later[i].playing is None
            &&& !sounds(keys(later), note) ==> sounds(keys(pool_play(later, note)), note)
        }),
{
    let n = voices[i].env.remaining();
    let later = ticks_all(voices, n);
    lemma_ticks_all_pointwise(voices, n, i);
    lemma_released_voice_comes_free(voices[i], n);
    if !sounds(keys(later), note) {
        lemma_free_voice_is_claimed(later, note, i);
    }
}

/// A key-up starts the release of a voice that sounds the note, where there
/// is one, and leaves every other voice alone.
pub proof fn lemma_stop_releases_first_match(voices: Seq<OscState>, note: u8)
    ensures
        pool_stop(voices, note).len() == voices.len(),
        match first_sounding(keys(voices), note) {
            Some(i) => {
                &&& 0 <= i < voices.len()
                &&& voices[i].playing == Some(note)
                &&& pool_stop(voices, note)[i] == voices[i].release()
                &&& forall|j: int|
                    0 <= j < voices.len() && j != i ==> pool_stop(voices, note)[j] == voices[j]
            },
            None => !sounds(keys(voices), note) && pool_stop(voices, note) == voices,
        },
{
    let ks = keys(voices);
    lemma_first_sounding_below(ks, note, ks.len() as int);
}

} // verus!
