//! The reverb's controls.  The reverberator itself works on samples and is
//! the caller's.
use crate::params::{Knob, LfoInput, Param};
use vstd::prelude::*;

verus! {

/// The parameters of the reverb, in the order of its knobs.
#[derive(Debug, Clone, Copy, Hash, PartialEq, Eq, Structural)]
pub enum ReverbParam {
    Gain,
    Decay,
    Damping,
    Cutoff,
}

impl ReverbParam {
    /// The parameter with the given number.
    pub open spec fn of_index(value: usize) -> Option<ReverbParam> {
        if value == 0 {
            Some(ReverbParam::Gain)
        } else if value == 1 {
            Some(ReverbParam::Decay)
        } else if value == 2 {
            Some(ReverbParam::Damping)
        } else if value == 3 {
            Some(ReverbParam::Cutoff)
        } else {
            None
        }
    }

    /// The name under which the parameter is shown.
    pub open spec fn spec_name(self) -> Seq<char> {
        match self {
            ReverbParam::Gain => "Gain"@,
            ReverbParam::Decay => "Decay"@,
            ReverbParam::Damping => "Damping"@,
            ReverbParam::Cutoff => "Cutoff"@,
        }
    }

    pub fn from_index(value: usize) -> (param: Option<ReverbParam>)
        ensures
            param == Self::of_index(value),
    {
        match value {
            0 => Some(ReverbParam::Gain),
            1 => Some(ReverbParam::Decay),
            2 => Some(ReverbParam::Damping),
            3 => Some(ReverbParam::Cutoff),
            _ => None,
        }
    }

    pub fn name(self) -> (name: String)
        ensures
            name@ == self.spec_name(),
    {
        match self {
            ReverbParam::Gain => "Gain".to_string(),
            ReverbParam::Decay => "Decay".to_string(),
            ReverbParam::Damping => "Damping".to_string(),
            ReverbParam::Cutoff => "Cutoff".to_string(),
        }
    }

    /// The knob that sets the parameter.
    pub fn knob(self) -> (knob: Knob)
        ensures
            Self::of_index(knob.spec_index() as usize) == Some(self),
    {
        match self {
            ReverbParam::Gain => Knob::One,
            ReverbParam::Decay => Knob::Two,
            ReverbParam::Damping => Knob::Three,
            ReverbParam::Cutoff => Knob::Four,
        }
    }
}

pub struct Reverb {
    pub lfo_input: LfoInput,
}

impl Reverb {
    pub fn new() -> (reverb: Reverb)
        ensures
            reverb.lfo_input.target is None,
    {
        Reverb { lfo_input: LfoInput::new() }
    }

    /// Whether the LFO modulates the gain: it does where it is connected to
    /// the first knob.
    pub fn gain_modulated(&self) -> (yes: bool)
        ensures
            yes == (self.lfo_input.target == Some(Param::Knob(Knob::One))),
    {
        self.lfo_input.drives(Param::Knob(Knob::One))
    }

    /// The names of the parameters, in the order of the knobs.
    pub fn get_param_list(&self) -> (names: Vec<String>)
        ensures
            names@.len() == 4,
            forall|i: int|
                0 <= i < 4 ==> (#[trigger] names@[i])@ == ReverbParam::of_index(
                    i as usize,
                ).unwrap().spec_name(),
    {
        let mut names: Vec<String> = Vec::new();
        names.push(ReverbParam::Gain.name());
        names.push(ReverbParam::Decay.name());
        names.push(ReverbParam::Damping.name());
        names.push(ReverbParam::Cutoff.name());
        names
    }
}

} // verus!
