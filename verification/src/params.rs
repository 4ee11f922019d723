//! The names by which engines, effects and their controls are addressed.
use crate::effects::EffectType;
use vstd::prelude::*;

verus! {

/// The eight controls that the editor of an engine offers.
#[derive(Debug, Clone, Copy, PartialEq, Eq, Structural, Hash)]
pub enum GuiParam {
    A,
    B,
    C,
    D,
    E,
    F,
    G,
    H,
}

/// The eight knobs of the controller.
#[derive(Debug, Clone, Copy, PartialEq, Eq, Structural, Hash)]
pub enum Knob {
    One,
    Two,
    Three,
    Four,
    Five,
    Six,
    Seven,
    Eight,
}

/// First of the eight controller numbers that the knobs send.
pub const FIRST_KNOB_CONTROL: u8 = 70;

/// Controller number of the modulation wheel, which swells the volume.
pub const SWELL_CONTROL: u8 = 1;

impl Knob {
    /// The knob's number, from zero.
    pub open spec fn spec_index(self) -> int {
        match self {
            Knob::One => 0,
            Knob::Two => 1,
            Knob::Three => 2,
            Knob::Four => 3,
            Knob::Five => 4,
            Knob::Six => 5,
            Knob::Seven => 6,
            Knob::Eight => 7,
        }
    }

    /// The knob that sends controller number `control`: the numbers from 70
    /// to 77 belong to the knobs one to eight.
    pub open spec fn of_control(control: u8) -> Option<Knob> {
        if control == 70 {
            Some(Knob::One)
        } else if control == 71 {
            Some(Knob::Two)
        } else if control == 72 {
            Some(Knob::Three)
        } else if control == 73 {
            Some(Knob::Four)
        } else if control == 74 {
            Some(Knob::Five)
        } else if control == 75 {
            Some(Knob::Six)
        } else if control == 76 {
            Some(Knob::Seven)
        } else if control == 77 {
            Some(Knob::Eight)
        } else {
            None
        }
    }

    pub fn index(self) -> (i: usize)
        ensures
            i == self.spec_index(),
            i < 8,
    {
        match self {
            Knob::One => 0,
            Knob::Two => 1,
            Knob::Three => 2,
            Knob::Four => 3,
            Knob::Five => 4,
            Knob::Six => 5,
            Knob::Seven => 6,
            Knob::Eight => 7,
        }
    }

    pub fn from_control(control: u8) -> (knob: Option<Knob>)
        ensures
            knob == Self::of_control(control),
    {
        match control {
            70 => Some(Knob::One),
            71 => Some(Knob::Two),
            72 => Some(Knob::Three),
            73 => Some(Knob::Four),
            74 => Some(Knob::Five),
            75 => Some(Knob::Six),
            76 => Some(Knob::Seven),
            77 => Some(Knob::Eight),
            _ => None,
        }
    }
}

/// A knob's controller number leads back to the knob, and no other number
/// leads to a knob.
pub proof fn lemma_knob_controls(control: u8)
    ensures
        match Knob::of_control(control) {
            Some(knob) => control == FIRST_KNOB_CONTROL + knob.spec_index(),
            None => control < FIRST_KNOB_CONTROL || control > FIRST_KNOB_CONTROL + 7,
        },
{
}

/// The engines that a channel can hold.
#[derive(Debug, Clone, Copy, PartialEq, Eq, Structural, Hash)]
pub enum SynthEngineType {
    SubSynth,
    B3Organ,
    Wurlitzer,
    WaveTable,
    MidiOut,
}

impl SynthEngineType {
    /// The engine's place in the list of engines.
    pub open spec fn spec_index(self) -> int {
        match self {
            SynthEngineType::B3Organ => 0,
            SynthEngineType::SubSynth => 1,
            SynthEngineType::Wurlitzer => 2,
            SynthEngineType::WaveTable => 3,
            SynthEngineType::MidiOut => 4,
        }
    }

    /// The name under which the engine is shown.
    pub open spec fn spec_name(self) -> Seq<char> {
        match self {
            SynthEngineType::SubSynth => "Subtract"@,
            SynthEngineType::B3Organ => "Organ"@,
            SynthEngineType::Wurlitzer => "Wurlitzer"@,
            SynthEngineType::WaveTable => "WaveTable"@,
            SynthEngineType::MidiOut => "MidiOut"@,
        }
    }

    pub fn index(self) -> (i: usize)
        ensures
            i == self.spec_index(),
            i < 5,
    {
        match self {
            SynthEngineType::B3Organ => 0,
            SynthEngineType::SubSynth => 1,
            SynthEngineType::Wurlitzer => 2,
            SynthEngineType::WaveTable => 3,
            SynthEngineType::MidiOut => 4,
        }
    }

    pub fn name(self) -> (name: String)
        ensures
            name@ == self.spec_name(),
    {
        match self {
            SynthEngineType::SubSynth => "Subtract".to_string(),
            SynthEngineType::B3Organ => "Organ".to_string(),
            SynthEngineType::Wurlitzer => "Wurlitzer".to_string(),
            SynthEngineType::WaveTable => "WaveTable".to_string(),
            SynthEngineType::MidiOut => "MidiOut".to_string(),
        }
    }
}

impl From<SynthEngineType> for usize {
    fn from(kind: SynthEngineType) -> (i: usize) {
        kind.index()
    }
}

impl vstd::std_specs::convert::FromSpecImpl<SynthEngineType> for usize {
    open spec fn obeys_from_spec() -> bool {
        true
    }

    open spec fn from_spec(kind: SynthEngineType) -> usize {
        kind.spec_index() as usize
    }
}

/// What a knob or a control of the editor sets.
#[derive(Debug, Clone, Copy, PartialEq, Eq, Structural)]
pub enum Control {
    /// The volume of the drawbar with this number.
    Overtone(usize),
    Attack,
    Decay,
    Sustain,
    Release,
    Cutoff,
    Resonance,
    /// The wavetable shape of the bank with this number.
    Shape(usize),
    /// The balance between the two banks.
    Mix,
    /// The semitones by which the second bank sounds below the key.
    Offset,
    /// Nothing.
    Unused,
}

impl Control {
    /// What a knob sets on an engine of the given kind.  On the organ the
    /// eight knobs are the eight drawbars; on the subtractive synth the
    /// first six are attack, decay, sustain, release, cutoff and resonance.
    pub open spec fn of_knob(kind: SynthEngineType, knob: Knob) -> Control {
        match kind {
            SynthEngineType::B3Organ => Control::Overtone(knob.spec_index() as usize),
            SynthEngineType::SubSynth => match knob {
                Knob::One => Control::Attack,
                Knob::Two => Control::Decay,
                Knob::Three => Control::Sustain,
                Knob::Four => Control::Release,
                Knob::Five => Control::Cutoff,
                Knob::Six => Control::Resonance,
                _ => Control::Unused,
            },
            _ => Control::Unused,
        }
    }

    /// What a control of the editor sets on an engine of the given kind.
    /// On the organ the first four are attack, decay, sustain and release;
    /// on the subtractive synth they are the shapes of the two banks, their
    /// balance and the second bank's offset.
    pub open spec fn of_gui(kind: SynthEngineType, param: GuiParam) -> Control {
        match kind {
            SynthEngineType::B3Organ => match param {
                GuiParam::A => Control::Attack,
                GuiParam::B => Control::Decay,
                GuiParam::C => Control::Sustain,
                GuiParam::D => Control::Release,
                _ => Control::Unused,
            },
            SynthEngineType::SubSynth => match param {
                GuiParam::A => Control::Shape(0),
                GuiParam::B => Control::Shape(1),
                GuiParam::C => Control::Mix,
                GuiParam::D => Control::Offset,
                _ => Control::Unused,
            },
            _ => Control::Unused,
        }
    }

    pub fn for_knob(kind: SynthEngineType, knob: Knob) -> (control: Control)
        ensures
            control == Self::of_knob(kind, knob),
    {
        match kind {
            SynthEngineType::B3Organ => Control::Overtone(knob.index()),
            SynthEngineType::SubSynth => match knob {
                Knob::One => Control::Attack,
                Knob::Two => Control::Decay,
                Knob::Three => Control::Sustain,
                Knob::Four => Control::Release,
                Knob::Five => Control::Cutoff,
                Knob::Six => Control::Resonance,
                _ => Control::Unused,
            },
            _ => Control::Unused,
        }
    }

    pub fn for_gui(kind: SynthEngineType, param: GuiParam) -> (control: Control)
        ensures
            control == Self::of_gui(kind, param),
    {
        match kind {
            SynthEngineType::B3Organ => match param {
                GuiParam::A => Control::Attack,
                GuiParam::B => Control::Decay,
                GuiParam::C => Control::Sustain,
                GuiParam::D => Control::Release,
                _ => Control::Unused,
            },
            SynthEngineType::SubSynth => match param {
                GuiParam::A => Control::Shape(0),
                GuiParam::B => Control::Shape(1),
                GuiParam::C => Control::Mix,
                GuiParam::D => Control::Offset,
                _ => Control::Unused,
            },
            _ => Control::Unused,
        }
    }
}

/// A control of an engine or an effect.
#[derive(Debug, Clone, Copy, PartialEq, Eq, Structural)]
pub enum Param {
    Knob(Knob),
    Gui(GuiParam),
}

/// What the channel's LFO acts on.
#[derive(Debug, Clone, Copy, PartialEq, Eq, Structural)]
pub enum LfoTarget {
    Synth(Param),
    Effect(Param),
}

/// The control that an LFO is connected to, if any.
#[derive(Debug, Clone, Copy, PartialEq, Eq, Structural)]
pub struct LfoInput {
    pub target: Option<Param>,
}

impl LfoInput {
    /// No connection.
    pub fn new() -> (input: LfoInput)
        ensures
            input.target is None,
    {
        LfoInput { target: None }
    }

    pub fn lfo_connect(&mut self, param: Param)
        ensures
            final(self).target == Some(param),
    {
        self.target = Some(param);
    }

    pub fn lfo_disconnect(&mut self)
        ensures
            final(self).target is None,
    {
        self.target = None;
    }

    /// Whether the LFO is connected to `param`.
    pub fn drives(&self, param: Param) -> (yes: bool)
        ensures
            yes == (self.target == Some(param)),
    {
        match self.target {
            Some(target) => target == param,
            None => false,
        }
    }
}

/// What the display shows.
#[derive(Debug, Clone, Copy, PartialEq, Eq, Structural)]
pub enum Screen {
    Synth(SynthEngineType),
    Effect(EffectType),
    Stepper(i64),
    WaveTableSynth(),
}

} // verus!
