//! The vocabulary of lighting effects: the shapes an effect follows over one
//! period, the direction it travels across fixtures, and sequences of steps.
use vstd::prelude::*;

verus! {

/// The direction in which an effect travels across a row of fixtures.
#[derive(Debug, Clone, Copy, PartialEq, Eq, Hash, Structural)]
pub enum EffectDirection {
    BottomToTop,
    ToCenter,
    FromCenter,
    LeftToRight,
}

/// The direction in which a beam effect travels across the beams of one fixture.
#[derive(Debug, Clone, Copy, PartialEq, Eq, Hash, Structural)]
pub enum ModulatorDirection {
    BottomToTop,
    ToCenter,
    FromCenter,
}

/// The shape of a modulation over one period.
#[derive(Debug, Clone, Copy, PartialEq, Eq, Hash, Structural)]
pub enum Waveform {
    SawUp,
    SawDown,
    TriangleDown,
    SineUp,
    SineDown,
    HalfSineUp,
    HalfSineDown,
    ShortSquarePulse,
    HalfRootUp,
    HalfRootDown,
    OnePointFiveRootUp,
    OnePointFiveRootDown,
    On,
    Off,
}

/// The shape of a dimmer effect over one period.
#[derive(Debug, Clone, Copy, PartialEq, Eq, Hash, Structural)]
pub enum Effect {
    SawUp,
    SawDown,
    TriangleDown,
    SineUp,
    SineDown,
    HalfSineUp,
    HalfSineDown,
    ShortSquarePulse,
    On,
    Off,
}

/// An effect made of steps that are played one after the other, in order.
#[derive(Debug, Clone, PartialEq, Eq, Hash)]
pub struct Steps<T> {
    steps: Vec<T>,
}

impl<T> View for Steps<T> {
    type V = Seq<T>;

    /// The steps, in the order they are played.
    closed spec fn view(&self) -> Seq<T> {
        self.steps@
    }
}

impl<T> Steps<T> {
    pub fn new(steps: Vec<T>) -> (s: Steps<T>)
        ensures
            s@ == steps@,
    {
        Steps { steps }
    }

    /// The steps, in the order they are played.
    pub fn steps(&self) -> (s: &[T])
        ensures
            s@ == self@,
    {
        self.steps.as_slice()
    }
}

} // verus!
