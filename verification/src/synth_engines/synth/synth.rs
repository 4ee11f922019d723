//! The subtractive synth's voices: two banks of ten, the second of which
//! may sound a number of semitones below the key.
use crate::envelope::EnvTime;
use crate::synth_engines::pool::first_free;
use crate::synth_engines::synth_common::{
    find_free, keys, new_pool, pool_view, pool_wf, set_pool_time, tick_all, tick_pool,
    with_time_all, OscState, Oscillator,
};
use vstd::prelude::*;

verus! {

/// Samples in one wavetable of the subtractive synth.
pub const WAVE_TABLE_SIZE: usize = 256;

/// Voices in each bank.
pub const VOICES: usize = 10;

/// Banks of voices.
pub const BANKS: usize = 2;

/// The shapes of the subtractive synth's wavetables.
#[derive(Clone, Copy, PartialEq, Eq, Structural, Debug)]
pub enum OscType {
    Sin,
    Tri,
    Sqr,
    Saw,
}

impl OscType {
    /// The shape with the given number; any number beyond the last shape
    /// gives the last.
    pub open spec fn of_index(value: usize) -> OscType {
        if value == 0 {
            OscType::Sin
        } else if value == 1 {
            OscType::Tri
        } else if value == 2 {
            OscType::Sqr
        } else {
            OscType::Saw
        }
    }

    pub fn from_index(value: usize) -> (shape: OscType)
        ensures
            shape == Self::of_index(value),
    {
        if value == 0 {
            OscType::Sin
        } else if value == 1 {
            OscType::Tri
        } else if value == 2 {
            OscType::Sqr
        } else {
            OscType::Saw
        }
    }

    /// The shape's number.
    pub fn index(&self) -> (value: usize)
        ensures
            Self::of_index(value) == *self,
            value < 4,
    {
        match self {
            OscType::Sin => 0,
            OscType::Tri => 1,
            OscType::Sqr => 2,
            OscType::Saw => 3,
        }
    }
}

impl From<usize> for OscType {
    fn from(value: usize) -> (shape: OscType) {
        OscType::from_index(value)
    }
}

impl vstd::std_specs::convert::FromSpecImpl<usize> for OscType {
    open spec fn obeys_from_spec() -> bool {
        true
    }

    open spec fn from_spec(value: usize) -> OscType {
        OscType::of_index(value)
    }
}

/// The note that a bank with the given offset sounds for key `note`: the
/// key lowered by the offset's low eight bits, where that is not below the
/// lowest note, else the key itself.
pub open spec fn transposed(note: u8, offset: i16) -> u8 {
    let low = (offset as int) % 256;
    if note >= low {
        (note - low) as u8
    } else {
        note
    }
}

/// Mathematical value of a bank of voices.
pub struct BankState {
    pub voices: Seq<OscState>,
    /// Semitones by which the bank sounds below the key.
    pub offset: i16,
}

/// The first index below `n` of a voice on which `note` is held down.
pub open spec fn first_held_below(voices: Seq<OscState>, note: u8, n: int) -> Option<int>
    decreases n,
{
    if n <= 0 {
        None
    } else {
        match first_held_below(voices, note, n - 1) {
            Some(i) => Some(i),
            None => if voices[n - 1].playing == Some(note) && voices[n - 1].held() {
                Some(n - 1)
            } else {
                None
            },
        }
    }
}

/// The first voice on which `note` is held down.
pub open spec fn first_held(voices: Seq<OscState>, note: u8) -> Option<int> {
    first_held_below(voices, note, voices.len() as int)
}

/// `first_held_below` finds a voice that holds the key with no such voice
/// before it, and finds none only where no voice holds the key.
pub proof fn lemma_first_held_below(voices: Seq<OscState>, note: u8, n: int)
    requires
        0 <= n <= voices.len(),
    ensures
        match first_held_below(voices, note, n) {
            Some(i) => 0 <= i < n && voices[i].playing == Some(note) && voices[i].held()
                && forall|j: int|
                0 <= j < i ==> !((#[trigger] voices[j]).playing == Some(note) && voices[j].held()),
            None => forall|j: int|
                0 <= j < n ==> !((#[trigger] voices[j]).playing == Some(note) && voices[j].held()),
        },
    decreases n,
{
    if n > 0 {
        lemma_first_held_below(voices, note, n - 1);
    }
}

impl BankState {
    /// The bank after key `note` went down: its first free voice takes the
    /// key and sounds the transposed note.
    pub open spec fn play(self, note: u8) -> BankState {
        match first_free(keys(self.voices)) {
            None => self,
            Some(i) => BankState {
                voices: self.voices.update(
                    i,
                    self.voices[i].press(note, transposed(note, self.offset)),
                ),
                ..self
            },
        }
    }

    /// The bank after key `note` went up: the first voice that holds the key
    /// starts its release.
    pub open spec fn stop(self, note: u8) -> BankState {
        match first_held(self.voices, note) {
            None => self,
            Some(i) => BankState { voices: self.voices.update(i, self.voices[i].release()), ..self },
        }
    }

    pub open spec fn tick(self) -> BankState {
        BankState { voices: tick_all(self.voices), ..self }
    }

    pub open spec fn with_time(self, which: EnvTime, samples: nat) -> BankState {
        BankState { voices: with_time_all(self.voices, which, samples), ..self }
    }
}

/// Some bank holds key `note` down.
pub open spec fn key_held(banks: Seq<BankState>, note: u8) -> bool {
    exists|b: int| 0 <= b < banks.len() && first_held((#[trigger] banks[b]).voices, note) is Some
}

/// The banks after key `note` went down: nothing changes where the key is
/// already held; else every bank gives the key a voice, if it has one free.
pub open spec fn banks_play(banks: Seq<BankState>, note: u8) -> Seq<BankState> {
    if key_held(banks, note) {
        banks
    } else {
        Seq::new(banks.len(), |b: int| banks[b].play(note))
    }
}

/// The banks after key `note` went up.
pub open spec fn banks_stop(banks: Seq<BankState>, note: u8) -> Seq<BankState> {
    Seq::new(banks.len(), |b: int| banks[b].stop(note))
}

/// The first voice of a pool on which `note` is held down.
fn find_held(voices: &Vec<Oscillator>, note: u8) -> (found: Option<usize>)
    ensures
        match found {
            Some(i) => first_held(pool_view(voices@), note) == Some(i as int) && i < voices@.len(),
            None => first_held(pool_view(voices@), note) is None,
        },
{
    let ghost vs = pool_view(voices@);
    let mut i: usize = 0;
    while i < voices.len()
        invariant
            i <= voices@.len(),
            vs == pool_view(voices@),
            first_held_below(vs, note, i as int) is None,
        decreases voices@.len() - i,
    {
        let hit = match voices[i].playing() {
            Some(key) => key == note && voices[i].is_pressed(),
            None => false,
        };
        if hit {
            proof {
                lemma_first_held_below(vs, note, i as int);
                lemma_first_held_below(vs, note, vs.len() as int);
                assert(vs[i as int].playing == Some(note) && vs[i as int].held());
            }
            return Some(i);
        }
        assert(!(vs[i as int].playing == Some(note) && vs[i as int].held()));
        i = i + 1;
    }
    None
}

/// The note that a bank with the given offset sounds for key `note`.
pub fn transpose(note: u8, offset: i16) -> (pitch: u8)
    ensures
        pitch == transposed(note, offset),
{
    let low: i32 = ((offset as i32) + 32_768) % 256;
    assert(low == (offset as int) % 256);
    if (note as i32) >= low {
        ((note as i32) - low) as u8
    } else {
        note
    }
}

/// One bank of voices.
pub struct Bank {
    voices: Vec<Oscillator>,
    offset: i16,
}

impl View for Bank {
    type V = BankState;

    closed spec fn view(&self) -> BankState {
        BankState { voices: pool_view(self.voices@), offset: self.offset }
    }
}

impl Bank {
    pub closed spec fn wf(&self) -> bool {
        self.voices@.len() == VOICES && pool_wf(self.voices@)
    }

    /// A well-formed bank has ten voices.
    pub proof fn lemma_wf(&self)
        requires
            self.wf(),
        ensures
            self@.voices.len() == VOICES,
    {
    }

    fn new() -> (bank: Bank)
        ensures
            bank.wf(),
            bank@ == (BankState {
                voices: Seq::new(VOICES as nat, |i: int| OscState::initial()),
                offset: 0,
            }),
    {
        Bank { voices: new_pool(VOICES), offset: 0 }
    }

    /// Voice `i` of the bank.
    pub fn voice(&self, i: usize) -> (osc: Oscillator)
        requires
            self.wf(),
            i < VOICES,
        ensures
            osc.wf(),
            osc@ == self@.voices[i as int],
    {
        self.voices[i]
    }

    /// Semitones by which the bank sounds below the key.
    pub fn offset(&self) -> (offset: i16)
        ensures
            offset == self@.offset,
    {
        self.offset
    }

    fn holds(&self, note: u8) -> (held: bool)
        requires
            self.wf(),
        ensures
            held == first_held(self@.voices, note) is Some,
    {
        find_held(&self.voices, note).is_some()
    }

    fn play(&mut self, note: u8)
        requires
            old(self).wf(),
        ensures
            final(self).wf(),
            final(self)@ == old(self)@.play(note),
    {
        match find_free(&self.voices) {
            Some(i) => {
                let pitch = transpose(note, self.offset);
                self.voices[i].press_tuned(note, pitch);
                assert(self@.voices =~= old(self)@.play(note).voices);
            },
            None => {},
        }
    }

    fn stop(&mut self, note: u8)
        requires
            old(self).wf(),
        ensures
            final(self).wf(),
            final(self)@ == old(self)@.stop(note),
    {
        match find_held(&self.voices, note) {
            Some(i) => {
                self.voices[i].release();
                assert(self@.voices =~= old(self)@.stop(note).voices);
            },
            None => {},
        }
    }

    fn tick(&mut self)
        requires
            old(self).wf(),
        ensures
            final(self).wf(),
            final(self)@ == old(self)@.tick(),
    {
        tick_pool(&mut self.voices);
    }

    fn set_time(&mut self, which: EnvTime, samples: u32)
        requires
            old(self).wf(),
        ensures
            final(self).wf(),
            final(self)@ == old(self)@.with_time(which, samples as nat),
    {
        set_pool_time(&mut self.voices, which, samples);
    }
}

/// The values of a list of banks.
pub open spec fn banks_view(banks: Seq<Bank>) -> Seq<BankState> {
    Seq::new(banks.len(), |b: int| banks[b]@)
}

pub struct Synth {
    osc_s: Vec<Bank>,
    osc_type: Vec<OscType>,
}

impl View for Synth {
    type V = Seq<BankState>;

    closed spec fn view(&self) -> Seq<BankState> {
        banks_view(self.osc_s@)
    }
}

impl Synth {
    pub closed spec fn wf(&self) -> bool {
        &&& self.osc_s@.len() == BANKS
        &&& self.osc_type@.len() == BANKS
        &&& forall|b: int| 0 <= b < BANKS ==> (#[trigger] self.osc_s@[b]).wf()
    }

    /// The wavetable shapes of the two banks.
    pub closed spec fn shapes(&self) -> Seq<OscType> {
        self.osc_type@
    }

    /// A well-formed synth has two banks of ten voices.
    pub proof fn lemma_wf(&self)
        requires
            self.wf(),
        ensures
            self@.len() == BANKS,
            self.shapes().len() == BANKS,
            forall|b: int| 0 <= b < BANKS ==> (#[trigger] self@[b]).voices.len() == VOICES,
    {
        assert forall|b: int| 0 <= b < BANKS implies (#[trigger] self@[b]).voices.len()
            == VOICES by {
            self.osc_s@[b].lemma_wf();
        }
    }

    /// Two banks of free voices at the key's own pitch; the first bank
    /// plays sines, the second saws.
    pub fn new() -> (synth: Synth)
        ensures
            synth.wf(),
            synth@ == Seq::new(
                BANKS as nat,
                |b: int|
                    BankState {
                        voices: Seq::new(VOICES as nat, |i: int| OscState::initial()),
                        offset: 0,
                    },
            ),
            synth.shapes() == seq![OscType::Sin, OscType::Saw],
    {
        let mut osc_s: Vec<Bank> = Vec::new();
        osc_s.push(Bank::new());
        osc_s.push(Bank::new());
        let mut osc_type: Vec<OscType> = Vec::new();
        osc_type.push(OscType::Sin);
        osc_type.push(OscType::Saw);
        let synth = Synth { osc_s, osc_type };
        assert(synth@ =~= Seq::new(
            BANKS as nat,
            |b: int|
                BankState {
                    voices: Seq::new(VOICES as nat, |i: int| OscState::initial()),
                    offset: 0,
                },
        ));
        assert(synth.shapes() =~= seq![OscType::Sin, OscType::Saw]);
        synth
    }

    /// Key down.  The velocity does not reach the synth's voices.
    pub fn play(&mut self, midi_note: u8, _velocity: u8)
        requires
            old(self).wf(),
        ensures
            final(self).wf(),
            final(self).shapes() == old(self).shapes(),
            final(self)@ == banks_play(old(self)@, midi_note),
    {
        let ghost before = self@;
        let mut b: usize = 0;
        while b < BANKS
            invariant
                b <= BANKS,
                self.wf(),
                self@ == before,
                forall|c: int| 0 <= c < b ==> first_held((#[trigger] before[c]).voices, midi_note) is None,
            decreases BANKS - b,
        {
            if self.osc_s[b].holds(midi_note) {
                assert(first_held(before[b as int].voices, midi_note) is Some);
                return ;
            }
            b = b + 1;
        }
        assert(!key_held(before, midi_note));
        let mut b: usize = 0;
        while b < BANKS
            invariant
                b <= BANKS,
                self.osc_s@.len() == BANKS,
                self.osc_type@ == old(self).osc_type@,
                before == old(self)@,
                before.len() == BANKS,
                forall|c: int| 0 <= c < BANKS ==> (#[trigger] self.osc_s@[c]).wf(),
                forall|c: int| 0 <= c < b ==> (#[trigger] self.osc_s@[c])@ == before[c].play(midi_note),
                forall|c: int| b <= c < BANKS ==> (#[trigger] self.osc_s@[c])@ == before[c],
            decreases BANKS - b,
        {
            self.osc_s[b].play(midi_note);
            b = b + 1;
        }
        assert(self@ =~= banks_play(before, midi_note));
    }

    /// Key up.
    pub fn stop(&mut self, midi_note: u8)
        requires
            old(self).wf(),
        ensures
            final(self).wf(),
            final(self).shapes() == old(self).shapes(),
            final(self)@ == banks_stop(old(self)@, midi_note),
    {
        let ghost before = self@;
        let mut b: usize = 0;
        while b < BANKS
            invariant
                b <= BANKS,
                self.osc_s@.len() == BANKS,
                self.osc_type@ == old(self).osc_type@,
                before == old(self)@,
                before.len() == BANKS,
                forall|c: int| 0 <= c < BANKS ==> (#[trigger] self.osc_s@[c]).wf(),
                forall|c: int| 0 <= c < b ==> (#[trigger] self.osc_s@[c])@ == before[c].stop(midi_note),
                forall|c: int| b <= c < BANKS ==> (#[trigger] self.osc_s@[c])@ == before[c],
            decreases BANKS - b,
        {
            self.osc_s[b].stop(midi_note);
            b = b + 1;
        }
        assert(self@ =~= banks_stop(before, midi_note));
    }

    /// One sample later.
    pub fn tick(&mut self)
        requires
            old(self).wf(),
        ensures
            final(self).wf(),
            final(self).shapes() == old(self).shapes(),
            final(self)@ == Seq::new(BANKS as nat, |b: int| old(self)@[b].tick()),
    {
        let ghost before = self@;
        let mut b: usize = 0;
        while b < BANKS
            invariant
                b <= BANKS,
                self.osc_s@.len() == BANKS,
                self.osc_type@ == old(self).osc_type@,
                before == old(self)@,
                before.len() == BANKS,
                forall|c: int| 0 <= c < BANKS ==> (#[trigger] self.osc_s@[c]).wf(),
                forall|c: int| 0 <= c < b ==> (#[trigger] self.osc_s@[c])@ == before[c].tick(),
                forall|c: int| b <= c < BANKS ==> (#[trigger] self.osc_s@[c])@ == before[c],
            decreases BANKS - b,
        {
            self.osc_s[b].tick();
            b = b + 1;
        }
        assert(self@ =~= Seq::new(BANKS as nat, |b: int| before[b].tick()));
    }

    /// Sets one of the envelope times of every voice, in samples.
    pub fn set_time(&mut self, which: EnvTime, samples: u32)
        requires
            old(self).wf(),
        ensures
            final(self).wf(),
            final(self).shapes() == old(self).shapes(),
            final(self)@ == Seq::new(
                BANKS as nat,
                |b: int| old(self)@[b].with_time(which, samples as nat),
            ),
    {
        let ghost before = self@;
        let mut b: usize = 0;
        while b < BANKS
            invariant
                b <= BANKS,
                self.osc_s@.len() == BANKS,
                self.osc_type@ == old(self).osc_type@,
                before == old(self)@,
                before.len() == BANKS,
                forall|c: int| 0 <= c < BANKS ==> (#[trigger] self.osc_s@[c]).wf(),
                forall|c: int|
                    0 <= c < b ==> (#[trigger] self.osc_s@[c])@ == before[c].with_time(
                        which,
                        samples as nat,
                    ),
                forall|c: int| b <= c < BANKS ==> (#[trigger] self.osc_s@[c])@ == before[c],
            decreases BANKS - b,
        {
            self.osc_s[b].set_time(which, samples);
            b = b + 1;
        }
        assert(self@ =~= Seq::new(BANKS as nat, |b: int| before[b].with_time(which, samples as nat)));
    }

    /// Sets the attack time of every voice, in samples.
    pub fn set_atk(&mut self, samples: u32)
        requires
            old(self).wf(),
        ensures
            final(self).wf(),
            final(self).shapes() == old(self).shapes(),
            final(self)@ == Seq::new(
                BANKS as nat,
                |b: int| old(self)@[b].with_time(EnvTime::Attack, samples as nat),
            ),
    {
        self.set_time(EnvTime::Attack, samples);
    }

    /// Sets the decay time of every voice, in samples.
    pub fn set_decay(&mut self, samples: u32)
        requires
            old(self).wf(),
        ensures
            final(self).wf(),
            final(self).shapes() == old(self).shapes(),
            final(self)@ == Seq::new(
                BANKS as nat,
                |b: int| old(self)@[b].with_time(EnvTime::Decay, samples as nat),
            ),
    {
        self.set_time(EnvTime::Decay, samples);
    }

    /// Sets the release time of every voice, in samples.
    pub fn set_release(&mut self, samples: u32)
        requires
            old(self).wf(),
        ensures
            final(self).wf(),
            final(self).shapes() == old(self).shapes(),
            final(self)@ == Seq::new(
                BANKS as nat,
                |b: int| old(self)@[b].with_time(EnvTime::Release, samples as nat),
            ),
    {
        self.set_time(EnvTime::Release, samples);
    }

    /// Sets the wavetable shape of bank `bank` by the shape's number.
    pub fn set_osc_type(&mut self, bank: usize, value: usize)
        requires
            old(self).wf(),
            bank < BANKS,
        ensures
            final(self).wf(),
            final(self)@ == old(self)@,
            final(self).shapes() == old(self).shapes().update(
                bank as int,
                OscType::of_index(value),
            ),
    {
        self.osc_type.set(bank, OscType::from_index(value));
        assert(self@ =~= old(self)@);
    }

    /// Sets the semitones by which bank `bank` sounds below the key.  Voices
    /// that sound keep their pitch.
    pub fn set_offset(&mut self, bank: usize, offset: i16)
        requires
            old(self).wf(),
            bank < BANKS,
        ensures
            final(self).wf(),
            final(self).shapes() == old(self).shapes(),
            final(self)@ == old(self)@.update(
                bank as int,
                BankState { offset, ..old(self)@[bank as int] },
            ),
    {
        self.osc_s[bank].offset = offset;
        assert(self@ =~= old(self)@.update(
            bank as int,
            BankState { offset, ..old(self)@[bank as int] },
        ));
    }

    /// Bank `bank`.
    pub fn bank(&self, bank: usize) -> (b: &Bank)
        requires
            self.wf(),
            bank < BANKS,
        ensures
            b.wf(),
            b@ == self@[bank as int],
    {
        &self.osc_s[bank]
    }

    /// The wavetable shape of bank `bank`.
    pub fn osc_type(&self, bank: usize) -> (shape: OscType)
        requires
            self.wf(),
            bank < BANKS,
        ensures
            shape == self.shapes()[bank as int],
    {
        self.osc_type[bank]
    }

    pub fn name(&self) -> (name: String)
        ensures
            name@ == "Synth"@,
    {
        "Synth".to_string()
    }
}

} // verus!
