//! The synth engines, the channels that hold them, and the synth that
//! routes MIDI to the channels.
use crate::effects::chorus::{ChorusState, ChorusTap};
use crate::effects::{EffectState, EffectType, EffectsModule};
use crate::midi::{bend_raw, bend_value, MidiEvent};
use crate::params::{Control, Knob, SynthEngineType, SWELL_CONTROL};
use crate::synth_engines::midi_out_engine::MidiOutEngine;
use crate::synth_engines::organ::Organ;
use crate::synth_engines::synth::synth::{banks_play, banks_stop, BankState, Synth as SubSynth, BANKS};
use crate::synth_engines::synth_common::{pool_play, pool_stop, tick_all, OscState};
use crate::synth_engines::wave_table::{AppState, WaveTableEngine};
use crate::synth_engines::wurlitzer::note_osc::WurliState;
use crate::synth_engines::wurlitzer::{wurli_play, wurli_stop, wurli_tick, WurlitzerEngine};
use vstd::prelude::*;

pub mod midi_out_engine;
pub mod organ;
pub mod pool;
pub mod synth;
pub mod synth_common;
pub mod wave_table;
pub mod wurlitzer;

verus! {

/// Effect slots of a channel.
pub const EFFECT_SLOTS: usize = 2;

/// Mathematical value of an engine.
pub enum EngineState {
    B3Organ(Seq<OscState>),
    SubSynth(Seq<BankState>),
    Wurli(Seq<WurliState>),
    WaveTable(AppState),
    MidiOutEngine,
}

impl EngineState {
    /// A new engine of the given kind.
    pub open spec fn fresh(kind: SynthEngineType) -> EngineState {
        match kind {
            SynthEngineType::B3Organ => EngineState::B3Organ(
                Seq::new(crate::synth_engines::organ::VOICES as nat, |i: int| OscState::initial()),
            ),
            SynthEngineType::SubSynth => EngineState::SubSynth(
                Seq::new(
                    BANKS as nat,
                    |b: int|
                        BankState {
                            voices: Seq::new(
                                crate::synth_engines::synth::synth::VOICES as nat,
                                |i: int| OscState::initial(),
                            ),
                            offset: 0,
                        },
                ),
            ),
            SynthEngineType::Wurlitzer => EngineState::Wurli(
                Seq::new(
                    crate::synth_engines::wurlitzer::VOICES as nat,
                    |i: int| WurliState::initial(),
                ),
            ),
            SynthEngineType::WaveTable => EngineState::WaveTable(AppState::initial()),
            SynthEngineType::MidiOut => EngineState::MidiOutEngine,
        }
    }

    /// The kind of engine.
    pub open spec fn kind(self) -> SynthEngineType {
        match self {
            EngineState::B3Organ(_) => SynthEngineType::B3Organ,
            EngineState::SubSynth(_) => SynthEngineType::SubSynth,
            EngineState::Wurli(_) => SynthEngineType::Wurlitzer,
            EngineState::WaveTable(_) => SynthEngineType::WaveTable,
            EngineState::MidiOutEngine => SynthEngineType::MidiOut,
        }
    }

    /// The engine after key `note` went down.
    pub open spec fn play(self, note: u8, velocity: u8) -> EngineState {
        match self {
            EngineState::B3Organ(voices) => EngineState::B3Organ(pool_play(voices, note)),
            EngineState::SubSynth(banks) => EngineState::SubSynth(banks_play(banks, note)),
            EngineState::Wurli(voices) => EngineState::Wurli(wurli_play(voices, note, velocity)),
            EngineState::WaveTable(app) => EngineState::WaveTable(app.play(note, velocity)),
            EngineState::MidiOutEngine => self,
        }
    }

    /// The engine after key `note` went up.
    pub open spec fn stop(self, note: u8) -> EngineState {
        match self {
            EngineState::B3Organ(voices) => EngineState::B3Organ(pool_stop(voices, note)),
            EngineState::SubSynth(banks) => EngineState::SubSynth(banks_stop(banks, note)),
            EngineState::Wurli(voices) => EngineState::Wurli(wurli_stop(voices, note)),
            EngineState::WaveTable(app) => EngineState::WaveTable(app.stop(note)),
            EngineState::MidiOutEngine => self,
        }
    }

    /// The engine one sample later.
    pub open spec fn tick(self) -> EngineState {
        match self {
            EngineState::B3Organ(voices) => EngineState::B3Organ(tick_all(voices)),
            EngineState::SubSynth(banks) => EngineState::SubSynth(
                Seq::new(BANKS as nat, |b: int| banks[b].tick()),
            ),
            EngineState::Wurli(voices) => EngineState::Wurli(wurli_tick(voices)),
            EngineState::WaveTable(app) => EngineState::WaveTable(app.tick()),
            EngineState::MidiOutEngine => self,
        }
    }
}

/// One engine of any kind.
pub enum SynthModule {
    B3Organ(Organ),
    SubSynth(SubSynth),
    Wurli(WurlitzerEngine),
    WaveTable(WaveTableEngine),
    MidiOutEngine(MidiOutEngine),
}

impl View for SynthModule {
    type V = EngineState;

    open spec fn view(&self) -> EngineState {
        match self {
            SynthModule::B3Organ(organ) => EngineState::B3Organ(organ@),
            SynthModule::SubSynth(synth) => EngineState::SubSynth(synth@),
            SynthModule::Wurli(wurli) => EngineState::Wurli(wurli@),
            SynthModule::WaveTable(engine) => EngineState::WaveTable(engine.synth@),
            SynthModule::MidiOutEngine(_) => EngineState::MidiOutEngine,
        }
    }
}

impl SynthModule {
    pub open spec fn wf(&self) -> bool {
        match self {
            SynthModule::B3Organ(organ) => organ.wf(),
            SynthModule::SubSynth(synth) => synth.wf(),
            SynthModule::Wurli(wurli) => wurli.wf(),
            SynthModule::WaveTable(engine) => engine.synth.wf(),
            SynthModule::MidiOutEngine(_) => true,
        }
    }

    /// A new engine of the given kind.
    pub fn new(kind: SynthEngineType) -> (engine: SynthModule)
        ensures
            engine.wf(),
            engine@ == EngineState::fresh(kind),
    {
        match kind {
            SynthEngineType::B3Organ => SynthModule::B3Organ(Organ::new()),
            SynthEngineType::SubSynth => SynthModule::SubSynth(SubSynth::new()),
            SynthEngineType::Wurlitzer => SynthModule::Wurli(WurlitzerEngine::new()),
            SynthEngineType::WaveTable => SynthModule::WaveTable(WaveTableEngine::new()),
            SynthEngineType::MidiOut => SynthModule::MidiOutEngine(MidiOutEngine::new()),
        }
    }

    /// The kind of engine.
    pub fn engine_type(&self) -> (kind: SynthEngineType)
        ensures
            kind == self@.kind(),
    {
        match self {
            SynthModule::B3Organ(_) => SynthEngineType::B3Organ,
            SynthModule::SubSynth(_) => SynthEngineType::SubSynth,
            SynthModule::Wurli(_) => SynthEngineType::Wurlitzer,
            SynthModule::WaveTable(_) => SynthEngineType::WaveTable,
            SynthModule::MidiOutEngine(_) => SynthEngineType::MidiOut,
        }
    }

    /// Key down.
    pub fn play(&mut self, note: u8, velocity: u8)
        requires
            old(self).wf(),
        ensures
            final(self).wf(),
            final(self)@ == old(self)@.play(note, velocity),
    {
        match self {
            SynthModule::B3Organ(organ) => organ.play(note, velocity),
            SynthModule::SubSynth(synth) => synth.play(note, velocity),
            SynthModule::Wurli(wurli) => wurli.play(note, velocity),
            SynthModule::WaveTable(engine) => {
                engine.synth.play(note, velocity);
            },
            SynthModule::MidiOutEngine(_) => {},
        }
    }

    /// Key up.
    pub fn stop(&mut self, note: u8)
        requires
            old(self).wf(),
        ensures
            final(self).wf(),
            final(self)@ == old(self)@.stop(note),
    {
        match self {
            SynthModule::B3Organ(organ) => organ.stop(note),
            SynthModule::SubSynth(synth) => synth.stop(note),
            SynthModule::Wurli(wurli) => wurli.stop(note),
            SynthModule::WaveTable(engine) => {
                engine.synth.stop(note);
            },
            SynthModule::MidiOutEngine(_) => {},
        }
    }

    /// One sample later.
    pub fn tick(&mut self)
        requires
            old(self).wf(),
        ensures
            final(self).wf(),
            final(self)@ == old(self)@.tick(),
    {
        match self {
            SynthModule::B3Organ(organ) => organ.tick(),
            SynthModule::SubSynth(synth) => synth.tick(),
            SynthModule::Wurli(wurli) => wurli.tick(),
            SynthModule::WaveTable(engine) => engine.synth.tick(),
            SynthModule::MidiOutEngine(_) => {},
        }
    }

    /// The engine's name.
    pub fn name(&self) -> (name: String)
        ensures
            name@ == match self {
                SynthModule::B3Organ(_) => "Organ"@,
                SynthModule::SubSynth(_) => "Synth"@,
                SynthModule::Wurli(_) => "Wurlitzer"@,
                SynthModule::WaveTable(_) => "WaveTable"@,
                SynthModule::MidiOutEngine(engine) => engine.spec_name(),
            },
    {
        match self {
            SynthModule::B3Organ(organ) => organ.name(),
            SynthModule::SubSynth(synth) => synth.name(),
            SynthModule::Wurli(wurli) => wurli.name(),
            SynthModule::WaveTable(engine) => engine.name(),
            SynthModule::MidiOutEngine(engine) => engine.name(),
        }
    }
}

/// The effect slots that process a sample, in the order in which they do:
/// those among the first `n` that hold an effect that is switched on.
pub open spec fn active_below(effects: Seq<Option<(EffectState, bool)>>, n: int) -> Seq<usize>
    decreases n,
{
    if n <= 0 {
        Seq::empty()
    } else {
        let before = active_below(effects, n - 1);
        match effects[n - 1] {
            Some((_, true)) => before.push((n - 1) as usize),
            _ => before,
        }
    }
}

/// Mathematical value of a channel.
pub struct ChannelState {
    pub engine: EngineState,
    pub effects: Seq<Option<(EffectState, bool)>>,
    pub target_effects: bool,
}

impl ChannelState {
    /// A channel with a new engine of the given kind and no effects.
    pub open spec fn fresh(kind: SynthEngineType) -> ChannelState {
        ChannelState {
            engine: EngineState::fresh(kind),
            effects: Seq::new(EFFECT_SLOTS as nat, |i: int| None::<(EffectState, bool)>),
            target_effects: false,
        }
    }

    pub open spec fn wf(self) -> bool {
        &&& self.effects.len() == EFFECT_SLOTS
        &&& forall|i: int|
            0 <= i < EFFECT_SLOTS && (#[trigger] self.effects[i]) is Some
                ==> self.effects[i].unwrap().0.wf()
    }

    /// The channel after an effect of the given kind was put into slot
    /// `slot`, or the slot was cleared.  A new effect takes the switch of the
    /// effect that it replaces, and is switched off where the slot was
    /// empty.
    pub open spec fn with_effect(self, slot: int, kind: Option<EffectType>) -> ChannelState {
        let entry = match kind {
            None => None,
            Some(k) => Some(
                (
                    EffectState::fresh(k),
                    match self.effects[slot] {
                        Some((_, on)) => on,
                        None => false,
                    },
                ),
            ),
        };
        ChannelState { effects: self.effects.update(slot, entry), ..self }
    }

    /// The channel with the effect in slot `slot` switched on or off.
    pub open spec fn with_power(self, slot: int, on: bool) -> ChannelState {
        match self.effects[slot] {
            Some((effect, _)) => ChannelState {
                effects: self.effects.update(slot, Some((effect, on))),
                ..self
            },
            None => self,
        }
    }

    /// The channel after `value` was handed to the effect in slot `slot`: a
    /// chorus writes it to its delay line; a reverb keeps no sample here.
    pub open spec fn take_input(self, slot: int, value: u32) -> ChannelState {
        match self.effects[slot] {
            Some((EffectState::Chorus { line, lfo }, on)) => ChannelState {
                effects: self.effects.update(
                    slot,
                    Some((EffectState::Chorus { line: line.take_input(value), lfo }, on)),
                ),
                ..self
            },
            _ => self,
        }
    }

    /// What a read of the effect in slot `slot` yields: the tap of a
    /// chorus, nothing of a reverb or an empty slot.
    pub open spec fn tap(self, slot: int) -> Option<ChorusTap> {
        match self.effects[slot] {
            Some((EffectState::Chorus { line, .. }, _)) => Some(
                ChorusTap { delayed: line.delayed(), direct: line.input },
            ),
            _ => None,
        }
    }

    /// The channel after a read of the effect in slot `slot`: a chorus has
    /// moved its read cursor on.
    pub open spec fn get_sample(self, slot: int) -> ChannelState {
        match self.effects[slot] {
            Some((EffectState::Chorus { line, lfo }, on)) => ChannelState {
                effects: self.effects.update(
                    slot,
                    Some((EffectState::Chorus { line: line.advance(), lfo }, on)),
                ),
                ..self
            },
            _ => self,
        }
    }
}

/// One channel: an engine and up to two effects that follow it.
pub struct SynthChannel {
    engine: SynthModule,
    effects: Vec<Option<(EffectsModule, bool)>>,
    target_effects: bool,
}

/// The values of a channel's effect slots.
pub open spec fn effects_view(effects: Seq<Option<(EffectsModule, bool)>>) -> Seq<
    Option<(EffectState, bool)>,
> {
    Seq::new(
        effects.len(),
        |i: int|
            match effects[i] {
                Some((effect, on)) => Some((effect@, on)),
                None => None,
            },
    )
}

impl View for SynthChannel {
    type V = ChannelState;

    closed spec fn view(&self) -> ChannelState {
        ChannelState {
            engine: self.engine@,
            effects: effects_view(self.effects@),
            target_effects: self.target_effects,
        }
    }
}

impl SynthChannel {
    pub closed spec fn wf(&self) -> bool {
        self.engine.wf() && self@.wf()
    }

    /// A well-formed channel has a well-formed value.
    pub proof fn lemma_wf(&self)
        requires
            self.wf(),
        ensures
            self@.wf(),
    {
    }

    /// A channel with a new engine of the given kind and no effects.
    pub fn new(kind: SynthEngineType) -> (channel: SynthChannel)
        ensures
            channel.wf(),
            channel@ == ChannelState::fresh(kind),
    {
        let mut effects: Vec<Option<(EffectsModule, bool)>> = Vec::new();
        effects.push(None);
        effects.push(None);
        let channel = SynthChannel { engine: SynthModule::new(kind), effects, target_effects: false };
        assert(channel@.effects =~= ChannelState::fresh(kind).effects);
        channel
    }

    /// The channel's engine.
    pub fn engine(&self) -> (engine: &SynthModule)
        requires
            self.wf(),
        ensures
            engine.wf(),
            engine@ == self@.engine,
    {
        &self.engine
    }

    /// Hands out the channel's engine to be changed.  The channel holds
    /// whatever the engine is when it is handed back, and is well formed if
    /// that engine is.
    pub fn engine_mut(&mut self) -> (engine: &mut SynthModule)
        requires
            old(self).wf(),
        ensures
            engine.wf(),
            engine@ == old(self)@.engine,
            final(engine).wf() ==> final(self).wf(),
            final(self)@.engine == final(engine)@,
            final(self)@.effects =~= old(self)@.effects,
            final(self)@.target_effects == old(self)@.target_effects,
    {
        &mut self.engine
    }

    /// The kind of the channel's engine.
    pub fn engine_type(&self) -> (kind: SynthEngineType)
        ensures
            kind == self@.engine.kind(),
    {
        self.engine.engine_type()
    }

    /// Gives the channel a new engine of the given kind and says whether it
    /// did: a channel whose engine is of that kind keeps it.
    pub fn set_engine(&mut self, engine: SynthEngineType) -> (changed: bool)
        requires
            old(self).wf(),
        ensures
            final(self).wf(),
            changed == (engine != old(self)@.engine.kind()),
            final(self)@ == if changed {
                ChannelState { engine: EngineState::fresh(engine), ..old(self)@ }
            } else {
                old(self)@
            },
    {
        if engine == self.engine.engine_type() {
            return false;
        }
        self.engine = SynthModule::new(engine);
        true
    }

    /// Key down.
    pub fn play(&mut self, note: u8, velocity: u8)
        requires
            old(self).wf(),
        ensures
            final(self).wf(),
            final(self)@ == (ChannelState {
                engine: old(self)@.engine.play(note, velocity),
                ..old(self)@
            }),
    {
        self.engine.play(note, velocity);
    }

    /// Key up.
    pub fn stop(&mut self, note: u8)
        requires
            old(self).wf(),
        ensures
            final(self).wf(),
            final(self)@ == (ChannelState { engine: old(self)@.engine.stop(note), ..old(self)@ }),
    {
        self.engine.stop(note);
    }

    /// One sample later.
    pub fn tick(&mut self)
        requires
            old(self).wf(),
        ensures
            final(self).wf(),
            final(self)@ == (ChannelState { engine: old(self)@.engine.tick(), ..old(self)@ }),
    {
        self.engine.tick();
    }

    /// Says whether control changes go to the effects.
    pub fn set_target_effects(&mut self, target_effects: bool)
        requires
            old(self).wf(),
        ensures
            final(self).wf(),
            final(self)@ == (ChannelState { target_effects, ..old(self)@ }),
    {
        self.target_effects = target_effects;
    }

    /// Puts a new effect of the given kind into slot `slot`, or clears the
    /// slot.  What the effect in the slot held is lost.
    pub fn set_effect(&mut self, slot: usize, kind: Option<EffectType>)
        requires
            old(self).wf(),
            slot < EFFECT_SLOTS,
        ensures
            final(self).wf(),
            final(self)@ == old(self)@.with_effect(slot as int, kind),
    {
        let on = match &self.effects[slot] {
            Some((_, on)) => *on,
            None => false,
        };
        let entry = match kind {
            None => None,
            Some(k) => Some((EffectsModule::new(k), on)),
        };
        self.effects.set(slot, entry);
        assert(self@.effects =~= old(self)@.with_effect(slot as int, kind).effects);
    }

    /// Switches the effect in slot `slot` on or off.  An empty slot stays
    /// empty.
    pub fn set_effect_power(&mut self, slot: usize, on: bool)
        requires
            old(self).wf(),
            slot < EFFECT_SLOTS,
        ensures
            final(self).wf(),
            final(self)@ == old(self)@.with_power(slot as int, on),
    {
        match &mut self.effects[slot] {
            Some((_, power)) => {
                *power = on;
            },
            None => {},
        }
        assert(self@.effects =~= old(self)@.with_power(slot as int, on).effects);
    }

    /// The slots whose effects process a sample, in the order in which each
    /// takes what the one before it gives.  Where the list is empty the
    /// engine's sample passes through as it is.
    pub fn active_effects(&self) -> (slots: Vec<usize>)
        requires
            self.wf(),
        ensures
            slots@ == active_below(self@.effects, EFFECT_SLOTS as int),
    {
        let mut slots: Vec<usize> = Vec::new();
        let mut i: usize = 0;
        while i < EFFECT_SLOTS
            invariant
                i <= EFFECT_SLOTS,
                self.effects@.len() == EFFECT_SLOTS,
                slots@ == active_below(self@.effects, i as int),
            decreases EFFECT_SLOTS - i,
        {
            let on = match &self.effects[i] {
                Some((_, on)) => *on,
                None => false,
            };
            if on {
                slots.push(i);
            }
            i = i + 1;
        }
        slots
    }

    /// Hands a sample to the effect in slot `slot`.
    pub fn take_input(&mut self, slot: usize, value: u32)
        requires
            old(self).wf(),
            slot < EFFECT_SLOTS,
        ensures
            final(self).wf(),
            final(self)@ == old(self)@.take_input(slot as int, value),
    {
        match &mut self.effects[slot] {
            Some((EffectsModule::Chorus(chorus), _)) => {
                chorus.take_input(value);
            },
            _ => {},
        }
        assert(self@.effects =~= old(self)@.take_input(slot as int, value).effects);
    }

    /// Reads the effect in slot `slot`.
    pub fn get_sample(&mut self, slot: usize) -> (tap: Option<ChorusTap>)
        requires
            old(self).wf(),
            slot < EFFECT_SLOTS,
        ensures
            final(self).wf(),
            tap == old(self)@.tap(slot as int),
            final(self)@ == old(self)@.get_sample(slot as int),
    {
        let tap = match &mut self.effects[slot] {
            Some((EffectsModule::Chorus(chorus), _)) => Some(chorus.get_sample()),
            _ => None,
        };
        assert(self@.effects =~= old(self)@.get_sample(slot as int).effects);
        tap
    }

    /// Sets the stride of the chorus in slot `slot` and says whether the
    /// slot holds a chorus.
    pub fn set_chorus_step(&mut self, slot: usize, step: usize) -> (done: bool)
        requires
            old(self).wf(),
            slot < EFFECT_SLOTS,
        ensures
            final(self).wf(),
            match old(self)@.effects[slot as int] {
                Some((EffectState::Chorus { line, lfo }, on)) => done && final(self)@ == (
                ChannelState {
                    effects: old(self)@.effects.update(
                        slot as int,
                        Some(
                            (
                                EffectState::Chorus {
                                    line: ChorusState { step: step as nat, ..line },
                                    lfo,
                                },
                                on,
                            ),
                        ),
                    ),
                    ..old(self)@
                }),
                _ => !done && final(self)@ == old(self)@,
            },
    {
        let done = match &mut self.effects[slot] {
            Some((EffectsModule::Chorus(chorus), _)) => {
                chorus.set_step(step);
                true
            },
            _ => false,
        };
        proof {
            match old(self)@.effects[slot as int] {
                Some((EffectState::Chorus { line, lfo }, on)) => {
                    assert(self@.effects =~= old(self)@.effects.update(
                        slot as int,
                        Some(
                            (
                                EffectState::Chorus {
                                    line: ChorusState { step: step as nat, ..line },
                                    lfo,
                                },
                                on,
                            ),
                        ),
                    ));
                },
                _ => {
                    assert(self@.effects =~= old(self)@.effects);
                },
            }
        }
        done
    }

    /// The kind of the effect in slot `slot`, and whether it is switched on.
    pub fn effect(&self, slot: usize) -> (effect: Option<(EffectType, bool)>)
        requires
            self.wf(),
            slot < EFFECT_SLOTS,
        ensures
            effect == match self@.effects[slot as int] {
                Some((state, on)) => Some((state.kind(), on)),
                None => None,
            },
    {
        match &self.effects[slot] {
            Some((effect, on)) => Some((effect.effect_type(), *on)),
            None => None,
        }
    }
}

/// What is left for the caller to do after a MIDI event.
#[derive(Clone, Copy, Debug, PartialEq, Eq, Structural)]
pub enum MidiAction {
    /// The event was handled or calls for nothing.
    Nothing,
    /// The event was no MIDI message.
    Invalid,
    /// Retune the sounding voices by the bend that `raw` stands for.
    Bend { raw: i16 },
    /// Set `control`, which `knob` stands for on the engine that the
    /// keyboard plays, to `value`.
    Knob { knob: Knob, control: Control, value: u8 },
    /// Swell the engine's volume to `value`.
    VolumeSwell { value: u8 },
}

/// What a control change leaves for the caller to do.  The wavetable engine
/// takes no control change; elsewhere the controller numbers 70 to 77 are the
/// eight knobs and number 1 swells the volume.
pub open spec fn control_action(kind: SynthEngineType, control: u8, value: u8) -> MidiAction {
    if kind == SynthEngineType::WaveTable {
        MidiAction::Nothing
    } else if Knob::of_control(control) is Some {
        MidiAction::Knob {
            knob: Knob::of_control(control).unwrap(),
            control: Control::of_knob(kind, Knob::of_control(control).unwrap()),
            value,
        }
    } else if control == SWELL_CONTROL {
        MidiAction::VolumeSwell { value }
    } else {
        MidiAction::Nothing
    }
}

/// Mathematical value of the synth.
pub struct SynthState {
    pub active_channel: nat,
    pub channels: Seq<ChannelState>,
}

impl SynthState {
    /// Two channels, each with a new organ and no effects; the keyboard
    /// plays the first.
    pub open spec fn initial() -> SynthState {
        SynthState {
            active_channel: 0,
            channels: Seq::new(2, |i: int| ChannelState::fresh(SynthEngineType::B3Organ)),
        }
    }

    pub open spec fn wf(self) -> bool {
        &&& self.channels.len() > 0
        &&& self.active_channel < self.channels.len()
        &&& forall|i: int| 0 <= i < self.channels.len() ==> (#[trigger] self.channels[i]).wf()
    }

    /// The synth with the engine of channel `i` replaced.
    pub open spec fn with_engine(self, i: int, engine: EngineState) -> SynthState {
        SynthState {
            channels: self.channels.update(i, ChannelState { engine, ..self.channels[i] }),
            ..self
        }
    }

    /// The channel that sequencer channel `channel` leads to: channel
    /// numbers wrap round the synth's channels.
    pub open spec fn channel_of(self, channel: int) -> int {
        channel % (self.channels.len() as int)
    }

    /// The synth after key `note` went down on the channel that sequencer
    /// channel `channel` leads to.
    pub open spec fn play_on(self, channel: int, note: u8, velocity: u8) -> SynthState {
        let i = self.channel_of(channel);
        self.with_engine(i, self.channels[i].engine.play(note, velocity))
    }

    /// The synth after key `note` went up on the channel that sequencer
    /// channel `channel` leads to.
    pub open spec fn stop_on(self, channel: int, note: u8) -> SynthState {
        let i = self.channel_of(channel);
        self.with_engine(i, self.channels[i].engine.stop(note))
    }

    /// The engine of the active channel.
    pub open spec fn engine(self) -> EngineState {
        self.channels[self.active_channel as int].engine
    }

    /// The synth after a MIDI event: a note-on plays and a note-off stops
    /// the key on the engine of the active channel; nothing else changes
    /// the synth.
    pub open spec fn midi_input(self, event: MidiEvent) -> SynthState {
        match event {
            MidiEvent::NoteOn { key, value, .. } => self.with_engine(
                self.active_channel as int,
                self.engine().play(key, value),
            ),
            MidiEvent::NoteOff { key, .. } => self.with_engine(
                self.active_channel as int,
                self.engine().stop(key),
            ),
            _ => self,
        }
    }

    /// What a MIDI event leaves for the caller to do.
    pub open spec fn midi_action(self, event: MidiEvent) -> MidiAction {
        match event {
            MidiEvent::Invalid => MidiAction::Invalid,
            MidiEvent::PitchBend { lsb, msb, .. } => MidiAction::Bend {
                raw: bend_value(lsb, msb) as i16,
            },
            MidiEvent::ControlChange { control, value, .. } => control_action(
                self.engine().kind(),
                control,
                value,
            ),
            _ => MidiAction::Nothing,
        }
    }

    /// The synth one sample later.
    pub open spec fn tick(self) -> SynthState {
        SynthState {
            channels: Seq::new(
                self.channels.len(),
                |i: int| ChannelState { engine: self.channels[i].engine.tick(), ..self.channels[i] },
            ),
            ..self
        }
    }
}

/// The values of a list of channels.
pub open spec fn channels_view(channels: Seq<SynthChannel>) -> Seq<ChannelState> {
    Seq::new(channels.len(), |i: int| channels[i]@)
}

/// The synth: its channels, and which of them the keyboard plays.
pub struct Synth {
    active_channel: usize,
    channels: Vec<SynthChannel>,
}

impl View for Synth {
    type V = SynthState;

    closed spec fn view(&self) -> SynthState {
        SynthState {
            active_channel: self.active_channel as nat,
            channels: channels_view(self.channels@),
        }
    }
}

impl Synth {
    pub closed spec fn wf(&self) -> bool {
        &&& self@.wf()
        &&& forall|i: int| 0 <= i < self.channels@.len() ==> (#[trigger] self.channels@[i]).wf()
    }

    /// A well-formed synth has a well-formed value.
    pub proof fn lemma_wf(&self)
        requires
            self.wf(),
        ensures
            self@.wf(),
    {
    }

    /// Two channels, each with an organ and no effects; the keyboard plays
    /// the first.
    pub fn new() -> (synth: Synth)
        ensures
            synth.wf(),
            synth@ == SynthState::initial(),
    {
        let mut channels: Vec<SynthChannel> = Vec::new();
        let a = SynthChannel::new(SynthEngineType::B3Organ);
        let b = SynthChannel::new(SynthEngineType::B3Organ);
        proof {
            a.lemma_wf();
            b.lemma_wf();
        }
        channels.push(a);
        channels.push(b);
        let synth = Synth { active_channel: 0, channels };
        assert(synth@.channels =~= SynthState::initial().channels);
        synth
    }

    /// How many channels the synth has.
    pub fn n_channels(&self) -> (n: usize)
        requires
            self.wf(),
        ensures
            n == self@.channels.len(),
            n > 0,
    {
        self.channels.len()
    }

    /// The channel that the keyboard plays.
    pub fn active_channel(&self) -> (i: usize)
        ensures
            i == self@.active_channel,
    {
        self.active_channel
    }

    /// Lets the keyboard play channel `channel` and says whether there is
    /// such a channel; the synth is left as it was where there is none.
    pub fn set_active_channel(&mut self, channel: usize) -> (done: bool)
        requires
            old(self).wf(),
        ensures
            final(self).wf(),
            done == (channel < old(self)@.channels.len()),
            final(self)@ == if done {
                SynthState { active_channel: channel as nat, ..old(self)@ }
            } else {
                old(self)@
            },
    {
        if channel < self.channels.len() {
            self.active_channel = channel;
            true
        } else {
            false
        }
    }

    /// The channel that the keyboard plays.
    pub fn get_channel(&self) -> (channel: &SynthChannel)
        requires
            self.wf(),
        ensures
            channel.wf(),
            channel@ == self@.channels[self@.active_channel as int],
    {
        &self.channels[self.active_channel]
    }

    /// The engine of the channel that the keyboard plays.
    pub fn get_engine(&self) -> (engine: &SynthModule)
        requires
            self.wf(),
        ensures
            engine.wf(),
            engine@ == self@.engine(),
    {
        self.channels[self.active_channel].engine()
    }

    /// The channel that a sequencer channel leads to: channel numbers wrap
    /// round the synth's channels.
    pub fn get_channel_engine(&self, channel: usize) -> (found: &SynthChannel)
        requires
            self.wf(),
        ensures
            found.wf(),
            found@ == self@.channels[self@.channel_of(channel as int)],
    {
        let n_channels = self.channels.len();
        &self.channels[channel % n_channels]
    }

    /// Hands out channel `channel` to be changed.  The synth holds whatever
    /// the channel is when it is handed back, and is well formed if that
    /// channel is.
    pub fn channel_mut(&mut self, channel: usize) -> (found: &mut SynthChannel)
        requires
            old(self).wf(),
            channel < old(self)@.channels.len(),
        ensures
            found.wf(),
            found@ == old(self)@.channels[channel as int],
            final(found).wf() ==> final(self).wf(),
            final(self)@.active_channel == old(self)@.active_channel,
            final(self)@.channels =~= old(self)@.channels.update(channel as int, final(found)@),
    {
        &mut self.channels[channel]
    }

    /// Gives channel `channel` a new engine of the given kind and says
    /// whether it did: a channel whose engine is of that kind keeps it.
    pub fn set_channel_engine(&mut self, channel: usize, engine: SynthEngineType) -> (changed:
        bool)
        requires
            old(self).wf(),
            channel < old(self)@.channels.len(),
        ensures
            final(self).wf(),
            changed == (engine != old(self)@.channels[channel as int].engine.kind()),
            final(self)@ == if changed {
                old(self)@.with_engine(channel as int, EngineState::fresh(engine))
            } else {
                old(self)@
            },
    {
        let changed = self.channels[channel].set_engine(engine);
        proof {
            self.channels@[channel as int].lemma_wf();
            if !changed {
                assert(self@.channels =~= old(self)@.channels);
            } else {
                assert(self@.channels =~= old(self)@.with_engine(
                    channel as int,
                    EngineState::fresh(engine),
                ).channels);
            }
        }
        changed
    }

    /// Key down on the channel that sequencer channel `channel` leads to.
    pub fn play_on(&mut self, channel: usize, note: u8, velocity: u8)
        requires
            old(self).wf(),
        ensures
            final(self).wf(),
            final(self)@ == old(self)@.play_on(channel as int, note, velocity),
    {
        let i = channel % self.channels.len();
        self.channels[i].play(note, velocity);
        proof {
            self.channels@[i as int].lemma_wf();
            assert(self@.channels =~= old(self)@.with_engine(
                i as int,
                old(self)@.channels[i as int].engine.play(note, velocity),
            ).channels);
        }
    }

    /// Key up on the channel that sequencer channel `channel` leads to.
    pub fn stop_on(&mut self, channel: usize, note: u8)
        requires
            old(self).wf(),
        ensures
            final(self).wf(),
            final(self)@ == old(self)@.stop_on(channel as int, note),
    {
        let i = channel % self.channels.len();
        self.channels[i].stop(note);
        proof {
            self.channels@[i as int].lemma_wf();
            assert(self@.channels =~= old(self)@.with_engine(
                i as int,
                old(self)@.channels[i as int].engine.stop(note),
            ).channels);
        }
    }

    /// Takes one MIDI event.  Notes go to the engine of the channel that the
    /// keyboard plays; what a pitch bend or a control change asks for is
    /// handed back to the caller, who owns the values that they act on.
    pub fn midi_input(&mut self, event: &MidiEvent) -> (action: MidiAction)
        requires
            old(self).wf(),
        ensures
            final(self).wf(),
            final(self)@ == old(self)@.midi_input(*event),
            action == old(self)@.midi_action(*event),
    {
        let active = self.active_channel;
        match *event {
            MidiEvent::Invalid => MidiAction::Invalid,
            MidiEvent::NoteOn { channel: _, key, value } => {
                self.channels[active].play(key, value);
                proof {
                    self.channels@[active as int].lemma_wf();
                    assert(self@.channels =~= old(self)@.midi_input(*event).channels);
                }
                MidiAction::Nothing
            },
            MidiEvent::NoteOff { channel: _, key, value: _ } => {
                self.channels[active].stop(key);
                proof {
                    self.channels@[active as int].lemma_wf();
                    assert(self@.channels =~= old(self)@.midi_input(*event).channels);
                }
                MidiAction::Nothing
            },
            MidiEvent::PitchBend { channel: _, lsb, msb } => MidiAction::Bend {
                raw: bend_raw(lsb, msb),
            },
            MidiEvent::ControlChange { channel: _, control, value } => {
                match self.channels[active].engine_type() {
                    SynthEngineType::WaveTable => MidiAction::Nothing,
                    kind => {
                        match Knob::from_control(control) {
                            Some(knob) => MidiAction::Knob {
                                knob,
                                control: Control::for_knob(kind, knob),
                                value,
                            },
                            None => {
                                if control == SWELL_CONTROL {
                                    MidiAction::VolumeSwell { value }
                                } else {
                                    MidiAction::Nothing
                                }
                            },
                        }
                    },
                }
            },
            MidiEvent::Other => MidiAction::Nothing,
        }
    }

    /// One sample later on every channel.
    pub fn tick(&mut self)
        requires
            old(self).wf(),
        ensures
            final(self).wf(),
            final(self)@ == old(self)@.tick(),
    {
        let ghost before = self@;
        let n = self.channels.len();
        let mut i: usize = 0;
        while i < n
            invariant
                i <= n,
                n == self.channels@.len(),
                before == old(self)@,
                before.wf(),
                before.channels.len() == n,
                self.active_channel == old(self).active_channel,
                forall|j: int| 0 <= j < n ==> (#[trigger] self.channels@[j]).wf(),
                forall|j: int|
                    0 <= j < i ==> (#[trigger] self.channels@[j])@ == (ChannelState {
                        engine: before.channels[j].engine.tick(),
                        ..before.channels[j]
                    }),
                forall|j: int| i <= j < n ==> (#[trigger] self.channels@[j])@ == before.channels[j],
            decreases n - i,
        {
            self.channels[i].tick();
            i = i + 1;
        }
        proof {
            assert(self@.channels =~= before.tick().channels);
            assert forall|j: int| 0 <= j < n implies (#[trigger] self@.channels[j]).wf() by {
                self.channels@[j].lemma_wf();
            }
        }
    }
}

} // verus!
