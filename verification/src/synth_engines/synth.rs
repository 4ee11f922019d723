//! The subtractive synth.
use vstd::prelude::*;

pub mod synth;

verus! {

/// The shapes that an oscillator of the subtractive synth can take.
#[derive(Clone, Copy, PartialEq, Eq, Structural, Debug)]
pub enum OscType {
    Sin,
    Saw,
}

impl OscType {
    /// The shape with the given number; any number beyond the last shape
    /// gives the last.
    pub open spec fn of_index(value: usize) -> OscType {
        if value == 0 {
            OscType::Sin
        } else {
            OscType::Saw
        }
    }

    pub fn from_index(value: usize) -> (shape: OscType)
        ensures
            shape == Self::of_index(value),
    {
        if value == 0 {
            OscType::Sin
        } else {
            OscType::Saw
        }
    }

    /// The shape's number.
    pub fn index(&self) -> (value: usize)
        ensures
            Self::of_index(value) == *self,
            value < 2,
    {
        match self {
            OscType::Sin => 0,
            OscType::Saw => 1,
        }
    }
}

impl From<usize> for OscType {
    fn from(value: usize) -> (shape: OscType) {
        OscType::from_index(value)
    }
}

impl vstd::std_specs::convert::FromSpecImpl<usize> for OscType {
    open spec fn obeys_from_spec() -> bool {
        true
    }

    open spec fn from_spec(value: usize) -> OscType {
        OscType::of_index(value)
    }
}

} // verus!
