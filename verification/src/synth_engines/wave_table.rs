//! The wavetable engine: voices driven through the modulation matrix.
use crate::config::{MOD_MATRIX_SIZE, N_ENV, N_OSC, POLYPHONY};
use crate::envelope::EnvTime;
use crate::mod_matrix::{
    first_empty_below, fits, refs_valid, removed_below, spec_delete, ModMatrix, ModMatrixDest,
    ModMatrixItem, ModMatrixSrc, OscParam,
};
use crate::synth_engines::pool::{
    first_free, first_free_below, first_sounding_below, lemma_first_free_below,
    lemma_first_sounding_below, lemma_sounding_below_bound, lemma_sounding_below_claim,
    sounding_count, sounds,
};
use crate::synth_engines::wave_table::voice::{
    lemma_held_voice_tick, lemma_voice_press_release, Voice, VoiceState,
};
use vstd::prelude::*;

pub mod voice;

verus! {

/// The bit pattern of the 32-bit IEEE-754 number one.
pub const UNITY: u32 = 0x3F80_0000;

/// Those of the first `k` entries of `order` whose voice does not sound
/// `note`, in their order.
pub open spec fn order_without(order: Seq<usize>, keys: Seq<Option<u8>>, note: u8, k: int) -> Seq<
    usize,
>
    decreases k,
{
    if k <= 0 {
        Seq::empty()
    } else {
        let rest = order_without(order, keys, note, k - 1);
        if keys[order[k - 1] as int] == Some(note) {
            rest
        } else {
            rest.push(order[k - 1])
        }
    }
}

/// `order_without` keeps exactly the entries whose voice does not sound the
/// note, and repeats none where none was repeated.
pub proof fn lemma_order_without(order: Seq<usize>, keys: Seq<Option<u8>>, note: u8, k: int)
    requires
        0 <= k <= order.len(),
    ensures
        order_without(order, keys, note, k).len() <= k,
        forall|a: int|
            0 <= a < order_without(order, keys, note, k).len() ==> {
                let e = #[trigger] order_without(order, keys, note, k)[a];
                keys[e as int] != Some(note) && exists|j: int|
                    0 <= j < k && #[trigger] order[j] == e
            },
        forall|j: int|
            0 <= j < k && keys[(#[trigger] order[j]) as int] != Some(note) ==> order_without(
                order,
                keys,
                note,
                k,
            ).contains(order[j]),
        order.no_duplicates() ==> order_without(order, keys, note, k).no_duplicates(),
    decreases k,
{
    if k > 0 {
        lemma_order_without(order, keys, note, k - 1);
        let rest = order_without(order, keys, note, k - 1);
        let out = order_without(order, keys, note, k);
        let last = order[k - 1];
        assert forall|j: int|
            0 <= j < k && keys[(#[trigger] order[j]) as int] != Some(note) implies out.contains(
            order[j],
        ) by {
            if j == k - 1 {
                assert(out[out.len() - 1] == last);
            } else {
                assert(rest.contains(order[j]));
                let a = choose|a: int| 0 <= a < rest.len() && rest[a] == order[j];
                assert(out[a] == order[j]);
            }
        }
        assert forall|a: int| 0 <= a < out.len() implies {
            let e = #[trigger] out[a];
            keys[e as int] != Some(note) && exists|j: int| 0 <= j < k && #[trigger] order[j] == e
        } by {
            if a < rest.len() {
                let e = rest[a];
                let j = choose|j: int| 0 <= j < k - 1 && #[trigger] order[j] == e;
                assert(order[j] == out[a]);
            } else {
                assert(order[k - 1] == out[a]);
            }
        }
        if order.no_duplicates() {
            assert forall|a: int, b: int|
                0 <= a < out.len() && 0 <= b < out.len() && a != b implies out[a] != out[b] by {
                if a < rest.len() && b < rest.len() {
                } else if a < rest.len() {
                    let e = rest[a];
                    let j = choose|j: int| 0 <= j < k - 1 && #[trigger] order[j] == e;
                    assert(order[j] != order[k - 1]);
                } else if b < rest.len() {
                    let e = rest[b];
                    let j = choose|j: int| 0 <= j < k - 1 && #[trigger] order[j] == e;
                    assert(order[j] != order[k - 1]);
                }
            }
        }
    }
}

/// Mathematical value of the wavetable synth.
pub struct AppState {
    /// What modulates what.
    pub matrix: Seq<Option<ModMatrixItem>>,
    pub voices: Seq<VoiceState>,
    /// For each voice, the key that is held on it and its velocity.
    pub notes: Seq<Option<(u8, u8)>>,
    /// The voices with a held key, in the order in which the keys went down.
    pub order: Seq<usize>,
    /// Whether the LFOs run.
    pub lfo_running: bool,
    /// How often the LFOs were started over, round the 32-bit numbers.
    pub lfo_epoch: u32,
}

impl AppState {
    /// A silent synth with an empty modulation matrix.
    pub open spec fn empty() -> AppState {
        AppState {
            matrix: Seq::new(MOD_MATRIX_SIZE as nat, |i: int| None::<ModMatrixItem>),
            voices: Seq::new(POLYPHONY as nat, |i: int| VoiceState::initial()),
            notes: Seq::new(POLYPHONY as nat, |i: int| None::<(u8, u8)>),
            order: Seq::<usize>::empty(),
            lfo_running: false,
            lfo_epoch: 0,
        }
    }

    /// The route from velocity to `dest` at full amount.
    pub open spec fn velocity_route(dest: ModMatrixDest) -> ModMatrixItem {
        ModMatrixItem { src: ModMatrixSrc::Velocity, dest, amt: UNITY, bipolar: false }
    }

    /// A silent synth whose first routes lead from velocity to the synth's
    /// volume and to the level of each oscillator.
    pub open spec fn initial() -> AppState {
        AppState {
            matrix: Seq::new(
                MOD_MATRIX_SIZE as nat,
                |i: int|
                    if i == 0 {
                        Some(Self::velocity_route(ModMatrixDest::SynthVolume))
                    } else if i <= N_OSC {
                        Some(
                            Self::velocity_route(
                                ModMatrixDest::Osc {
                                    osc: (i - 1) as usize,
                                    param: OscParam::Level,
                                },
                            ),
                        )
                    } else {
                        None
                    },
            ),
            ..Self::empty()
        }
    }

    /// The keys that the voices sound, voice by voice.
    pub open spec fn keys(self) -> Seq<Option<u8>> {
        Seq::new(self.voices.len(), |i: int| self.voices[i].playing)
    }

    pub open spec fn wf(self) -> bool {
        &&& self.matrix.len() == MOD_MATRIX_SIZE
        &&& refs_valid(self.matrix)
        &&& self.voices.len() == POLYPHONY
        &&& self.notes.len() == POLYPHONY
        &&& forall|i: int| 0 <= i < POLYPHONY ==> (#[trigger] self.voices[i]).wf()
        &&& forall|i: int|
            0 <= i < POLYPHONY && (#[trigger] self.notes[i]) is Some ==> {
                &&& self.voices[i].playing == Some(self.notes[i].unwrap().0)
                &&& self.voices[i].velocity == self.notes[i].unwrap().1
                &&& self.voices[i].held()
            }
        &&& forall|k: int|
            0 <= k < self.order.len() ==> (#[trigger] self.order[k]) < POLYPHONY
                && self.notes[self.order[k] as int] is Some
        &&& forall|i: int|
            0 <= i < POLYPHONY && (#[trigger] self.notes[i]) is Some ==> self.order.contains(
                i as usize,
            )
        &&& self.order.no_duplicates()
    }

    /// The count of LFO starts after one more start.
    pub open spec fn next_epoch(epoch: u32) -> u32 {
        if epoch == u32::MAX {
            0
        } else {
            (epoch + 1) as u32
        }
    }

    /// The synth after key `note` went down.  Nothing changes where a voice
    /// already sounds the key or no voice is free; else the first free voice
    /// takes the key and joins the end of the order, and the LFOs start
    /// over.
    pub open spec fn play(self, note: u8, velocity: u8) -> AppState {
        if sounds(self.keys(), note) {
            self
        } else {
            match first_free(self.keys()) {
                None => self,
                Some(i) => AppState {
                    voices: self.voices.update(i, self.voices[i].press(note, velocity)),
                    notes: self.notes.update(i, Some((note, velocity))),
                    order: self.order.push(i as usize),
                    lfo_running: true,
                    lfo_epoch: Self::next_epoch(self.lfo_epoch),
                    ..self
                },
            }
        }
    }

    /// Whether voice `i` sounds `note`.
    pub open spec fn voice_sounds(self, i: int, note: u8) -> bool {
        self.voices[i].playing == Some(note)
    }

    /// The synth after key `note` went up: every voice that sounds the key
    /// starts its release and leaves the order.  Where no key is held any
    /// more, the LFOs run on freely.
    pub open spec fn stop(self, note: u8) -> AppState {
        let order = order_without(self.order, self.keys(), note, self.order.len() as int);
        AppState {
            voices: Seq::new(
                self.voices.len(),
                |i: int|
                    if self.voice_sounds(i, note) {
                        self.voices[i].release()
                    } else {
                        self.voices[i]
                    },
            ),
            notes: Seq::new(
                self.notes.len(),
                |i: int|
                    if self.voice_sounds(i, note) {
                        None
                    } else {
                        self.notes[i]
                    },
            ),
            order,
            lfo_running: self.lfo_running || order.len() == 0,
            ..self
        }
    }

    /// The synth one sample later.
    pub open spec fn tick(self) -> AppState {
        AppState { voices: Seq::new(self.voices.len(), |i: int| self.voices[i].tick()), ..self }
    }

    /// The synth with oscillator `n` of every voice switched on or off.
    pub open spec fn with_osc(self, n: int, on: bool) -> AppState {
        AppState {
            voices: Seq::new(self.voices.len(), |i: int| self.voices[i].with_osc(n, on)),
            ..self
        }
    }

    /// The synth with one of the times of envelope `n` of every voice set.
    pub open spec fn with_time(self, n: int, which: EnvTime, samples: nat) -> AppState {
        AppState {
            voices: Seq::new(
                self.voices.len(),
                |i: int| self.voices[i].with_time(n, which, samples),
            ),
            ..self
        }
    }
}

/// The values of a list of voices.
pub open spec fn voices_view(voices: Seq<Voice>) -> Seq<VoiceState> {
    Seq::new(voices.len(), |i: int| voices[i]@)
}

/// The wavetable synth: ten voices, the modulation matrix that routes
/// between them, and the table of keys that are held.
pub struct App {
    mod_matrix: ModMatrix,
    voices: Vec<Voice>,
    /// For each voice, the key held on it and its velocity.
    note: Vec<Option<(u8, u8)>>,
    /// The voices with a held key, oldest first.
    osc_order: Vec<usize>,
    lfo_running: bool,
    lfo_epoch: u32,
}

impl View for App {
    type V = AppState;

    closed spec fn view(&self) -> AppState {
        AppState {
            matrix: self.mod_matrix@,
            voices: voices_view(self.voices@),
            notes: self.note@,
            order: self.osc_order@,
            lfo_running: self.lfo_running,
            lfo_epoch: self.lfo_epoch,
        }
    }
}

impl App {
    pub closed spec fn wf(&self) -> bool {
        &&& self@.wf()
        &&& forall|i: int| 0 <= i < self.voices@.len() ==> (#[trigger] self.voices@[i]).wf()
    }

    /// A well-formed synth has a well-formed value.
    pub proof fn lemma_wf(&self)
        requires
            self.wf(),
        ensures
            self@.wf(),
    {
    }

    /// A silent synth with an empty modulation matrix.
    pub fn new() -> (app: App)
        ensures
            app.wf(),
            app@ == AppState::empty(),
    {
        let mut voices: Vec<Voice> = Vec::new();
        let mut note: Vec<Option<(u8, u8)>> = Vec::new();
        let mut i: usize = 0;
        while i < POLYPHONY
            invariant
                i <= POLYPHONY,
                voices@.len() == i,
                note@.len() == i,
                forall|j: int| 0 <= j < i ==> (#[trigger] voices@[j]).wf(),
                forall|j: int| 0 <= j < i ==> (#[trigger] voices@[j])@ == VoiceState::initial(),
                forall|j: int| 0 <= j < i ==> (#[trigger] note@[j]) is None,
            decreases POLYPHONY - i,
        {
            let voice = Voice::new();
            proof {
                voice.lemma_wf();
            }
            voices.push(voice);
            note.push(None);
            i = i + 1;
        }
        let app = App {
            mod_matrix: ModMatrix::new(),
            voices,
            note,
            osc_order: Vec::new(),
            lfo_running: false,
            lfo_epoch: 0,
        };
        proof {
            assert(app@.voices =~= Seq::new(POLYPHONY as nat, |i: int| VoiceState::initial()));
            assert(app@.notes =~= Seq::new(POLYPHONY as nat, |i: int| None::<(u8, u8)>));
            assert(app@.matrix =~= AppState::empty().matrix);
            assert forall|i: int| 0 <= i < POLYPHONY implies (#[trigger] app@.voices[i]).wf() by {
                app.voices@[i].lemma_wf();
            }
            assert(refs_valid(app@.matrix)) by {
                assert forall|j: int| 0 <= j < app@.matrix.len() implies (
                #[trigger] crate::mod_matrix::target(app@.matrix, j)) is None by {
                    assert(app@.matrix[j] is None);
                }
            }
        }
        app
    }

    /// The first voice that sounds `note`.
    fn find_voice(&self, note: u8) -> (found: Option<usize>)
        requires
            self.wf(),
        ensures
            match found {
                Some(i) => i < POLYPHONY && self@.keys()[i as int] == Some(note),
                None => !sounds(self@.keys(), note),
            },
    {
        let ghost ks = self@.keys();
        let mut i: usize = 0;
        while i < self.voices.len()
            invariant
                i <= self.voices@.len(),
                self.voices@.len() == POLYPHONY,
                ks == self@.keys(),
                first_sounding_below(ks, note, i as int) is None,
            decreases self.voices@.len() - i,
        {
            let hit = match self.voices[i].playing() {
                Some(key) => key == note,
                None => false,
            };
            if hit {
                assert(ks[i as int] == Some(note));
                return Some(i);
            }
            assert(ks[i as int] != Some(note));
            i = i + 1;
        }
        proof {
            lemma_first_sounding_below(ks, note, ks.len() as int);
        }
        None
    }

    /// The first free voice.
    fn find_free_voice(&self) -> (found: Option<usize>)
        requires
            self.wf(),
        ensures
            match found {
                Some(i) => first_free(self@.keys()) == Some(i as int) && i < POLYPHONY,
                None => first_free(self@.keys()) is None,
            },
    {
        let ghost ks = self@.keys();
        let mut i: usize = 0;
        while i < self.voices.len()
            invariant
                i <= self.voices@.len(),
                self.voices@.len() == POLYPHONY,
                ks == self@.keys(),
                first_free_below(ks, i as int) is None,
            decreases self.voices@.len() - i,
        {
            match self.voices[i].playing() {
                None => {
                    proof {
                        lemma_first_free_below(ks, i as int);
                        lemma_first_free_below(ks, ks.len() as int);
                        assert(ks[i as int] is None);
                    }
                    return Some(i);
                },
                Some(_) => {
                    assert(ks[i as int] is Some);
                },
            }
            i = i + 1;
        }
        None
    }

    /// Key down.  Returns the voice that took the key: none where a voice
    /// already sounds it or no voice is free.
    pub fn play(&mut self, note: u8, velocity: u8) -> (claimed: Option<usize>)
        requires
            old(self).wf(),
        ensures
            final(self).wf(),
            final(self)@ == old(self)@.play(note, velocity),
            claimed == if sounds(old(self)@.keys(), note) {
                None
            } else {
                match first_free(old(self)@.keys()) {
                    Some(i) => Some(i as usize),
                    None => None,
                }
            },
    {
        match self.find_voice(note) {
            Some(_) => None,
            None => {
                match self.find_free_voice() {
                    Some(i) => {
                        let ghost before = self@;
                        proof {
                            assert(before.keys()[i as int] is None) by {
                                lemma_first_free_below(before.keys(), before.keys().len() as int);
                            }
                            assert(before.notes[i as int] is None);
                            lemma_voice_press_release(before.voices[i as int], note, velocity);
                        }
                        self.voices[i].press(note, velocity);
                        self.note.set(i, Some((note, velocity)));
                        self.osc_order.push(i);
                        self.lfo_running = true;
                        self.lfo_epoch = self.lfo_epoch.wrapping_add(1);
                        proof {
                            let after = self@;
                            assert(after.voices =~= before.voices.update(
                                i as int,
                                before.voices[i as int].press(note, velocity),
                            ));
                            assert(after =~= before.play(note, velocity));
                            assert forall|j: int|
                                0 <= j < POLYPHONY && (#[trigger] after.notes[j]) is Some implies after.order.contains(
                                j as usize,
                            ) by {
                                if j == i {
                                    assert(after.order[before.order.len() as int] == i);
                                } else {
                                    assert(before.order.contains(j as usize));
                                    let k = choose|k: int|
                                        0 <= k < before.order.len() && before.order[k] == j as usize;
                                    assert(after.order[k] == j as usize);
                                }
                            }
                            assert forall|a: int, b: int|
                                0 <= a < after.order.len() && 0 <= b < after.order.len() && a
                                    != b implies after.order[a] != after.order[b] by {
                                if a < before.order.len() {
                                    assert(before.notes[before.order[a] as int] is Some);
                                }
                                if b < before.order.len() {
                                    assert(before.notes[before.order[b] as int] is Some);
                                }
                            }
                            assert forall|k: int| 0 <= k < after.order.len() implies (
                            #[trigger] after.order[k]) < POLYPHONY
                                && after.notes[after.order[k] as int] is Some by {
                                if k < before.order.len() {
                                    assert(before.notes[before.order[k] as int] is Some);
                                }
                            }
                        }
                        Some(i)
                    },
                    None => None,
                }
            },
        }
    }
    /// Key up.  Returns whether no key is held any more.
    pub fn stop(&mut self, note: u8) -> (silent: bool)
        requires
            old(self).wf(),
        ensures
            final(self).wf(),
            final(self)@ == old(self)@.stop(note),
            silent == (final(self)@.order.len() == 0),
    {
        let ghost before = self@;
        let ghost ks = before.keys();
        let mut i: usize = 0;
        while i < POLYPHONY
            invariant
                i <= POLYPHONY,
                before == old(self)@,
                before.wf(),
                ks == before.keys(),
                self.voices@.len() == POLYPHONY,
                self.note@.len() == POLYPHONY,
                self.osc_order@ == before.order,
                self.mod_matrix@ == before.matrix,
                self.lfo_running == before.lfo_running,
                self.lfo_epoch == before.lfo_epoch,
                forall|j: int| 0 <= j < POLYPHONY ==> (#[trigger] self.voices@[j]).wf(),
                forall|j: int|
                    0 <= j < i ==> (#[trigger] self.voices@[j])@ == if before.voice_sounds(
                        j,
                        note,
                    ) {
                        before.voices[j].release()
                    } else {
                        before.voices[j]
                    },
                forall|j: int|
                    0 <= j < i ==> (#[trigger] self.note@[j]) == if before.voice_sounds(j, note) {
                        None
                    } else {
                        before.notes[j]
                    },
                forall|j: int| i <= j < POLYPHONY ==> (#[trigger] self.voices@[j])@ == before.voices[j],
                forall|j: int| i <= j < POLYPHONY ==> (#[trigger] self.note@[j]) == before.notes[j],
            decreases POLYPHONY - i,
        {
            let hit = match self.voices[i].playing() {
                Some(key) => key == note,
                None => false,
            };
            if hit {
                self.voices[i].release();
                self.note.set(i, None);
            }
            i = i + 1;
        }
        let mut order: Vec<usize> = Vec::new();
        let mut k: usize = 0;
        while k < self.osc_order.len()
            invariant
                k <= self.osc_order@.len(),
                before.wf(),
                ks == before.keys(),
                self.osc_order@ == before.order,
                self.lfo_running == before.lfo_running,
                self.lfo_epoch == before.lfo_epoch,
                self.voices@.len() == POLYPHONY,
                forall|j: int|
                    0 <= j < POLYPHONY ==> (#[trigger] self.voices@[j])@.playing
                        == before.voices[j].playing,
                order@ == order_without(before.order, ks, note, k as int),
            decreases self.osc_order@.len() - k,
        {
            let v = self.osc_order[k];
            assert(before.order[k as int] < POLYPHONY);
            let hit = match self.voices[v].playing() {
                Some(key) => key == note,
                None => false,
            };
            assert(hit == (ks[v as int] == Some(note)));
            if !hit {
                order.push(v);
            }
            k = k + 1;
        }
        self.osc_order = order;
        if self.osc_order.len() == 0 {
            self.lfo_running = true;
        }
        proof {
            let after = self@;
            let want = before.stop(note);
            assert(after.voices =~= want.voices);
            assert(after.notes =~= want.notes);
            assert(after == want);
            lemma_order_without(before.order, ks, note, before.order.len() as int);
            assert forall|j: int| 0 <= j < POLYPHONY implies (#[trigger] after.voices[j]).wf() by {
                lemma_voice_press_release(before.voices[j], note, 0);
            }
            assert forall|a: int| 0 <= a < after.order.len() implies (#[trigger] after.order[a])
                < POLYPHONY && after.notes[after.order[a] as int] is Some by {
                let e = after.order[a];
                let j = choose|j: int|
                    0 <= j < before.order.len() && #[trigger] before.order[j] == e;
                assert(before.order[j] < POLYPHONY);
            }
            assert forall|j: int|
                0 <= j < POLYPHONY && (#[trigger] after.notes[j]) is Some implies after.order.contains(
                j as usize,
            ) by {
                assert(before.notes[j] is Some);
                assert(before.order.contains(j as usize));
                let a = choose|a: int| 0 <= a < before.order.len() && before.order[a] == j as usize;
                assert(ks[before.order[a] as int] != Some(note));
            }
        }
        self.osc_order.len() == 0
    }

    /// One sample later: every voice moves on, and voices whose envelopes
    /// have all come to rest are free again.
    pub fn tick(&mut self)
        requires
            old(self).wf(),
        ensures
            final(self).wf(),
            final(self)@ == old(self)@.tick(),
    {
        let ghost before = self@;
        let mut i: usize = 0;
        while i < POLYPHONY
            invariant
                i <= POLYPHONY,
                before == old(self)@,
                before.wf(),
                self.voices@.len() == POLYPHONY,
                self.note@ == before.notes,
                self.osc_order@ == before.order,
                self.mod_matrix@ == before.matrix,
                self.lfo_running == before.lfo_running,
                self.lfo_epoch == before.lfo_epoch,
                forall|j: int| 0 <= j < POLYPHONY ==> (#[trigger] self.voices@[j]).wf(),
                forall|j: int| 0 <= j < i ==> (#[trigger] self.voices@[j])@ == before.voices[j].tick(),
                forall|j: int| i <= j < POLYPHONY ==> (#[trigger] self.voices@[j])@ == before.voices[j],
            decreases POLYPHONY - i,
        {
            self.voices[i].tick();
            i = i + 1;
        }
        proof {
            let after = self@;
            assert(after.voices =~= before.tick().voices);
            assert forall|j: int| 0 <= j < POLYPHONY implies (#[trigger] after.voices[j]).wf() by {
                self.voices@[j].lemma_wf();
            }
            assert forall|j: int|
                0 <= j < POLYPHONY && (#[trigger] after.notes[j]) is Some implies {
                &&& after.voices[j].playing == Some(after.notes[j].unwrap().0)
                &&& after.voices[j].velocity == after.notes[j].unwrap().1
                &&& after.voices[j].held()
            } by {
                lemma_held_voice_tick(before.voices[j]);
            }
        }
    }

    /// Switches oscillator `n` of every voice on or off.
    pub fn set_osc_on(&mut self, n: usize, on: bool)
        requires
            old(self).wf(),
            n < N_OSC,
        ensures
            final(self).wf(),
            final(self)@ == old(self)@.with_osc(n as int, on),
    {
        let ghost before = self@;
        let mut i: usize = 0;
        while i < POLYPHONY
            invariant
                i <= POLYPHONY,
                n < N_OSC,
                before == old(self)@,
                before.wf(),
                self.voices@.len() == POLYPHONY,
                self.note@ == before.notes,
                self.osc_order@ == before.order,
                self.mod_matrix@ == before.matrix,
                self.lfo_running == before.lfo_running,
                self.lfo_epoch == before.lfo_epoch,
                forall|j: int| 0 <= j < POLYPHONY ==> (#[trigger] self.voices@[j]).wf(),
                forall|j: int|
                    0 <= j < i ==> (#[trigger] self.voices@[j])@ == before.voices[j].with_osc(
                        n as int,
                        on,
                    ),
                forall|j: int| i <= j < POLYPHONY ==> (#[trigger] self.voices@[j])@ == before.voices[j],
            decreases POLYPHONY - i,
        {
            self.voices[i].set_osc_on(n, on);
            i = i + 1;
        }
        proof {
            let after = self@;
            assert(after.voices =~= before.with_osc(n as int, on).voices);
            assert forall|j: int| 0 <= j < POLYPHONY implies (#[trigger] after.voices[j]).wf() by {
                self.voices@[j].lemma_wf();
            }
            assert forall|j: int|
                0 <= j < POLYPHONY && (#[trigger] after.notes[j]) is Some implies after.voices[j].held() by {
                assert(before.voices[j].held());
                let e = choose|e: int|
                    0 <= e < before.voices[j].envs.len() && (
                    #[trigger] before.voices[j].envs[e]).pressed();
                assert(after.voices[j].envs[e].pressed());
            }
        }
    }

    /// Sets one of the times of envelope `n` of every voice, in samples.
    pub fn set_env_time(&mut self, n: usize, which: EnvTime, samples: u32)
        requires
            old(self).wf(),
            n < N_ENV,
        ensures
            final(self).wf(),
            final(self)@ == old(self)@.with_time(n as int, which, samples as nat),
    {
        let ghost before = self@;
        let mut i: usize = 0;
        while i < POLYPHONY
            invariant
                i <= POLYPHONY,
                n < N_ENV,
                before == old(self)@,
                before.wf(),
                self.voices@.len() == POLYPHONY,
                self.note@ == before.notes,
                self.osc_order@ == before.order,
                self.mod_matrix@ == before.matrix,
                self.lfo_running == before.lfo_running,
                self.lfo_epoch == before.lfo_epoch,
                forall|j: int| 0 <= j < POLYPHONY ==> (#[trigger] self.voices@[j]).wf(),
                forall|j: int|
                    0 <= j < i ==> (#[trigger] self.voices@[j])@ == before.voices[j].with_time(
                        n as int,
                        which,
                        samples as nat,
                    ),
                forall|j: int| i <= j < POLYPHONY ==> (#[trigger] self.voices@[j])@ == before.voices[j],
            decreases POLYPHONY - i,
        {
            self.voices[i].set_env_time(n, which, samples);
            i = i + 1;
        }
        proof {
            let after = self@;
            assert(after.voices =~= before.with_time(n as int, which, samples as nat).voices);
            assert forall|j: int| 0 <= j < POLYPHONY implies (#[trigger] after.voices[j]).wf() by {
                self.voices@[j].lemma_wf();
            }
            assert forall|j: int|
                0 <= j < POLYPHONY && (#[trigger] after.notes[j]) is Some implies after.voices[j].held() by {
                assert(before.voices[j].held());
                let e = choose|e: int|
                    0 <= e < before.voices[j].envs.len() && (
                    #[trigger] before.voices[j].envs[e]).pressed();
                assert(after.voices[j].envs[e].pressed());
            }
        }
    }

    /// Adds a route to the modulation matrix, as `ModMatrix::add` does.
    pub fn mod_matrix_add(&mut self, item: ModMatrixItem) -> (slot: Option<usize>)
        requires
            old(self).wf(),
        ensures
            final(self).wf(),
            match first_empty_below(old(self)@.matrix, MOD_MATRIX_SIZE as int) {
                Some(i) if fits(old(self)@.matrix, i, item) => slot == Some(i as usize)
                    && final(self)@ == (AppState {
                    matrix: old(self)@.matrix.update(i, Some(item)),
                    ..old(self)@
                }),
                _ => slot is None && final(self)@ == old(self)@,
            },
    {
        self.mod_matrix.add(item)
    }

    /// Replaces the route in slot `index`, as `ModMatrix::modify` does.
    pub fn mod_matrix_mod(&mut self, index: usize, item: ModMatrixItem) -> (done: bool)
        requires
            old(self).wf(),
        ensures
            final(self).wf(),
            done == (index < MOD_MATRIX_SIZE && fits(old(self)@.matrix, index as int, item)),
            final(self)@ == if done {
                AppState {
                    matrix: old(self)@.matrix.update(index as int, Some(item)),
                    ..old(self)@
                }
            } else {
                old(self)@
            },
    {
        self.mod_matrix.modify(index, item)
    }

    /// Deletes slot `index` of the modulation matrix and what modulates it,
    /// as `ModMatrix::delete` does.
    pub fn mod_matrix_del(&mut self, index: usize) -> (gone: usize)
        requires
            old(self).wf(),
        ensures
            final(self).wf(),
            final(self)@ == (AppState {
                matrix: spec_delete(old(self)@.matrix, index as int),
                ..old(self)@
            }),
            gone == if index < MOD_MATRIX_SIZE {
                removed_below(old(self)@.matrix, index as int, MOD_MATRIX_SIZE as int)
            } else {
                0
            },
    {
        self.mod_matrix.delete(index)
    }

    /// The modulation matrix.
    pub fn mod_matrix(&self) -> (matrix: &ModMatrix)
        requires
            self.wf(),
        ensures
            matrix.wf(),
            matrix@ == self@.matrix,
    {
        &self.mod_matrix
    }

    /// Voice `i`.
    pub fn voice(&self, i: usize) -> (voice: &Voice)
        requires
            self.wf(),
            i < POLYPHONY,
        ensures
            voice.wf(),
            voice@ == self@.voices[i as int],
    {
        &self.voices[i]
    }

    /// The key held on voice `i`, and its velocity.
    pub fn note(&self, i: usize) -> (held: Option<(u8, u8)>)
        requires
            self.wf(),
            i < POLYPHONY,
        ensures
            held == self@.notes[i as int],
    {
        self.note[i]
    }

    /// Whether the LFOs run.
    pub fn lfo_running(&self) -> (running: bool)
        ensures
            running == self@.lfo_running,
    {
        self.lfo_running
    }

    /// How often the LFOs were started over, round the 32-bit numbers.
    pub fn lfo_epoch(&self) -> (epoch: u32)
        ensures
            epoch == self@.lfo_epoch,
    {
        self.lfo_epoch
    }

    /// The voices with a held key, oldest first.
    pub fn osc_order(&self) -> (order: &Vec<usize>)
        ensures
            order@ == self@.order,
    {
        &self.osc_order
    }
}

impl Default for App {
    fn default() -> (app: App)
        ensures
            app.wf(),
            app@ == AppState::empty(),
    {
        App::new()
    }
}

/// The wavetable engine: the synth with its starting routes.
pub struct WaveTableEngine {
    pub synth: App,
}

impl WaveTableEngine {
    /// A silent synth with its starting routes.
    pub fn new() -> (engine: WaveTableEngine)
        ensures
            engine.synth.wf(),
            engine.synth@ == AppState::initial(),
    {
        let mut synth = App::new();
        synth.mod_matrix_mod(
            0,
            ModMatrixItem {
                src: ModMatrixSrc::Velocity,
                dest: ModMatrixDest::SynthVolume,
                amt: UNITY,
                bipolar: false,
            },
        );
        let mut n: usize = 0;
        while n < N_OSC
            invariant
                n <= N_OSC,
                synth.wf(),
                synth@.voices == AppState::empty().voices,
                synth@.notes == AppState::empty().notes,
                synth@.order == AppState::empty().order,
                !synth@.lfo_running,
                synth@.lfo_epoch == 0,
                synth@.matrix.len() == MOD_MATRIX_SIZE,
                forall|i: int| 0 <= i <= n ==> (#[trigger] synth@.matrix[i]) == AppState::initial().matrix[i],
                forall|i: int| n < i < MOD_MATRIX_SIZE ==> (#[trigger] synth@.matrix[i]) is None,
            decreases N_OSC - n,
        {
            synth.mod_matrix_mod(
                n + 1,
                ModMatrixItem {
                    src: ModMatrixSrc::Velocity,
                    dest: ModMatrixDest::Osc { osc: n, param: OscParam::Level },
                    amt: UNITY,
                    bipolar: false,
                },
            );
            n = n + 1;
        }
        assert(synth@.matrix =~= AppState::initial().matrix);
        WaveTableEngine { synth }
    }

    pub fn name(&self) -> (name: String)
        ensures
            name@ == "WaveTable"@,
    {
        "WaveTable".to_string()
    }
}

/// A key-down never makes the synth sound more notes than it has voices,
/// and a key-down while every voice sounds is dropped: the synth is as it
/// was.
pub proof fn lemma_app_play_within_polyphony(s: AppState, note: u8, velocity: u8)
    requires
        s.voices.len() == POLYPHONY,
    ensures
        s.play(note, velocity).voices.len() == POLYPHONY,
        sounding_count(s.play(note, velocity).keys()) <= POLYPHONY,
        (forall|i: int| 0 <= i < POLYPHONY ==> (#[trigger] s.voices[i]).playing is Some)
            ==> s.play(note, velocity) == s,
{
    let after = s.play(note, velocity);
    lemma_first_free_below(s.keys(), s.keys().len() as int);
    lemma_sounding_below_bound(after.keys(), after.keys().len() as int);
    if forall|i: int| 0 <= i < POLYPHONY ==> (#[trigger] s.voices[i]).playing is Some {
        assert forall|j: int| 0 <= j < s.keys().len() implies (#[trigger] s.keys()[j]) is Some by {
            assert(s.voices[j].playing is Some);
        }
    }
}

/// A key-down for a note that no voice sounds claims the first free voice,
/// where there is one: that voice then sounds the note with its velocity,
/// the key is the last in the order, and one more voice sounds.
pub proof fn lemma_app_free_voice_is_claimed(s: AppState, note: u8, velocity: u8, free: int)
    requires
        s.voices.len() == POLYPHONY,
        s.notes.len() == POLYPHONY,
        0 <= free < POLYPHONY,
        s.voices[free].playing is None,
        !sounds(s.keys(), note),
    ensures
        first_free(s.keys()) is Some,
        ({
            let i = first_free(s.keys()).unwrap();
            let after = s.play(note, velocity);
            &&& 0 <= i <= free
            &&& after.voices[i].playing == Some(note)
            &&& after.voices[i].velocity == velocity
            &&& after.notes[i] == Some((note, velocity))
            &&& after.order.last() == i as usize
            &&& sounds(after.keys(), note)
            &&& sounding_count(after.keys()) == sounding_count(s.keys()) + 1
        }),
{
    let ks = s.keys();
    lemma_first_free_below(ks, ks.len() as int);
    assert(ks[free] is None);
    let i = first_free(ks).unwrap();
    let after = s.play(note, velocity);
    assert(after.keys() =~= ks.update(i, Some(note)));
    assert(after.keys()[i] == Some(note));
    lemma_sounding_below_claim(ks, i, note, ks.len() as int);
}

} // verus!
