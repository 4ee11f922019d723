//! The engine that makes no sound of its own and stands for an outside
//! instrument.
use crate::params::LfoInput;
use vstd::prelude::*;
use vstd::string::StringExecFns;

verus! {

pub struct MidiOutEngine {
    /// The device that the notes are sent to; any device where none is
    /// named.
    pub output_dev: Option<String>,
    /// The channel that the notes are sent on.
    pub output_channel: u8,
    pub lfo_target: LfoInput,
}

impl MidiOutEngine {
    pub fn new() -> (engine: MidiOutEngine)
        ensures
            engine.output_dev is None,
            engine.output_channel == 0,
            engine.lfo_target.target is None,
    {
        MidiOutEngine { output_dev: None, output_channel: 0, lfo_target: LfoInput::new() }
    }

    /// The engine's name: "Midi Out " and the device, or "ANY".
    pub open spec fn spec_name(&self) -> Seq<char> {
        "Midi Out "@ + match self.output_dev {
            Some(dev) => dev@,
            None => "ANY"@,
        }
    }

    pub fn name(&self) -> (name: String)
        ensures
            name@ == self.spec_name(),
    {
        let mut name = "Midi Out ".to_string();
        match &self.output_dev {
            Some(dev) => name.append(dev.as_str()),
            None => name.append("ANY"),
        }
        name
    }
}

} // verus!
