//! The effects that a channel can run its engine's samples through.
use crate::effects::chorus::{Chorus, ChorusState, ChorusTap};
use crate::effects::reverb::Reverb;
use crate::params::LfoInput;
use vstd::prelude::*;

pub mod chorus;
pub mod reverb;

verus! {

/// The kinds of effect.
#[derive(Debug, Clone, Copy, Hash, PartialEq, Eq, Structural)]
pub enum EffectType {
    Reverb,
    Chorus,
    Delay,
}

impl EffectType {
    /// The name under which the effect is shown.
    pub open spec fn spec_name(self) -> Seq<char> {
        match self {
            EffectType::Reverb => "Reverb"@,
            EffectType::Chorus => "Chorus"@,
            EffectType::Delay => "Delay"@,
        }
    }

    pub fn name(self) -> (name: String)
        ensures
            name@ == self.spec_name(),
    {
        match self {
            EffectType::Reverb => "Reverb".to_string(),
            EffectType::Chorus => "Chorus".to_string(),
            EffectType::Delay => "Delay".to_string(),
        }
    }
}

/// Mathematical value of an effect.
pub enum EffectState {
    Reverb { lfo: LfoInput },
    Chorus { line: ChorusState, lfo: LfoInput },
}

impl EffectState {
    pub open spec fn wf(self) -> bool {
        match self {
            EffectState::Reverb { .. } => true,
            EffectState::Chorus { line, .. } => line.wf(),
        }
    }

    /// A new effect of the given kind.  There is no delay effect: where one
    /// is asked for, a chorus is made.
    pub open spec fn fresh(kind: EffectType) -> EffectState {
        match kind {
            EffectType::Reverb => EffectState::Reverb { lfo: LfoInput { target: None } },
            _ => EffectState::Chorus {
                line: ChorusState::fresh(),
                lfo: LfoInput { target: None },
            },
        }
    }

    /// The effect's kind.
    pub open spec fn kind(self) -> EffectType {
        match self {
            EffectState::Reverb { .. } => EffectType::Reverb,
            EffectState::Chorus { .. } => EffectType::Chorus,
        }
    }
}

/// One effect.
pub enum EffectsModule {
    Reverb(Reverb),
    Chorus(Chorus),
}

impl View for EffectsModule {
    type V = EffectState;

    open spec fn view(&self) -> EffectState {
        match self {
            EffectsModule::Reverb(reverb) => EffectState::Reverb { lfo: reverb.lfo_input },
            EffectsModule::Chorus(chorus) => EffectState::Chorus {
                line: chorus@,
                lfo: chorus.lfo_input(),
            },
        }
    }
}

impl EffectsModule {
    pub open spec fn wf(&self) -> bool {
        self@.wf()
    }

    /// A new effect of the given kind.
    pub fn new(kind: EffectType) -> (effect: EffectsModule)
        ensures
            effect.wf(),
            effect@ == EffectState::fresh(kind),
    {
        match kind {
            EffectType::Reverb => EffectsModule::Reverb(Reverb::new()),
            _ => EffectsModule::Chorus(Chorus::new()),
        }
    }

    /// The effect's kind.
    pub fn effect_type(&self) -> (kind: EffectType)
        ensures
            kind == self@.kind(),
    {
        match self {
            EffectsModule::Reverb(_) => EffectType::Reverb,
            EffectsModule::Chorus(_) => EffectType::Chorus,
        }
    }
}

/// The effects of the effect screen: one of each kind, and which of them is
/// selected.
pub struct EffectsModules {
    effect: EffectType,
    effect_i: usize,
    effects: Vec<EffectsModule>,
}

impl EffectsModules {
    pub closed spec fn wf(&self) -> bool {
        &&& self.effects@.len() == 2
        &&& self.effects@[0]@.kind() == EffectType::Reverb
        &&& self.effects@[1]@.kind() == EffectType::Chorus
        &&& self.effects@[0].wf()
        &&& self.effects@[1].wf()
        &&& self.effect != EffectType::Delay
        &&& self.effect_i == Self::place(self.effect)
    }

    /// The place of an effect's kind in the list of effects.
    pub open spec fn place(kind: EffectType) -> int {
        match kind {
            EffectType::Reverb => 0,
            _ => 1,
        }
    }

    /// The kind of the selected effect.
    pub closed spec fn kind(&self) -> EffectType {
        self.effect
    }

    /// The selected effect.
    pub closed spec fn current(&self) -> EffectState {
        self.effects@[self.effect_i as int]@
    }

    /// A reverb and a chorus, with the reverb selected.
    pub fn new() -> (modules: EffectsModules)
        ensures
            modules.wf(),
            modules.kind() == EffectType::Reverb,
            modules.current() == EffectState::fresh(EffectType::Reverb),
    {
        let mut effects: Vec<EffectsModule> = Vec::new();
        effects.push(EffectsModule::new(EffectType::Reverb));
        effects.push(EffectsModule::new(EffectType::Chorus));
        EffectsModules { effect: EffectType::Reverb, effect_i: 0, effects }
    }

    /// Selects the effect of the given kind.  There is no delay effect:
    /// asking for it changes nothing.
    pub fn set(&mut self, new_type: EffectType)
        requires
            old(self).wf(),
        ensures
            final(self).wf(),
            final(self).kind() == if new_type == EffectType::Delay {
                old(self).kind()
            } else {
                new_type
            },
            final(self).current().kind() == final(self).kind(),
    {
        match new_type {
            EffectType::Reverb => {
                self.effect_i = 0;
                self.effect = new_type;
            },
            EffectType::Chorus => {
                self.effect_i = 1;
                self.effect = new_type;
            },
            EffectType::Delay => {},
        }
    }

    /// Hands a sample to the selected effect: a chorus writes it to its
    /// delay line; the reverb keeps no sample here.
    pub fn take_input(&mut self, sample: u32)
        requires
            old(self).wf(),
        ensures
            final(self).wf(),
            final(self).kind() == old(self).kind(),
            final(self).current() == match old(self).current() {
                EffectState::Chorus { line, lfo } => EffectState::Chorus {
                    line: line.take_input(sample),
                    lfo,
                },
                other => other,
            },
    {
        match &mut self.effects[self.effect_i] {
            EffectsModule::Chorus(chorus) => chorus.take_input(sample),
            EffectsModule::Reverb(_) => {},
        }
    }

    /// Reads the selected effect: the tap of a chorus, which moves its read
    /// cursor on; nothing of the reverb.
    pub fn get_sample(&mut self) -> (tap: Option<ChorusTap>)
        requires
            old(self).wf(),
        ensures
            final(self).wf(),
            final(self).kind() == old(self).kind(),
            match old(self).current() {
                EffectState::Chorus { line, lfo } => tap == Some(
                    ChorusTap { delayed: line.delayed(), direct: line.input },
                ) && final(self).current() == (EffectState::Chorus { line: line.advance(), lfo }),
                other => tap is None && final(self).current() == other,
            },
    {
        match &mut self.effects[self.effect_i] {
            EffectsModule::Chorus(chorus) => Some(chorus.get_sample()),
            EffectsModule::Reverb(_) => None,
        }
    }

    /// The kind of the selected effect.
    pub fn effect(&self) -> (kind: EffectType)
        ensures
            kind == self.kind(),
    {
        self.effect
    }

    /// The selected effect.
    pub fn selected(&self) -> (effect: &EffectsModule)
        requires
            self.wf(),
        ensures
            effect.wf(),
            effect@ == self.current(),
            effect@.kind() == self.kind(),
    {
        &self.effects[self.effect_i]
    }
}

} // verus!
