//! The named colours a control surface can pick.
use vstd::prelude::*;

verus! {

/// A colour of the palette offered on the control surface.
#[derive(Debug, Copy, Clone, PartialEq, Eq, Hash, Structural)]
pub enum Color {
    White,
    Yellow,
    DeepOrange,
    Red,
    Violet,
    DarkBlue,
    Teal,
    Green,
}

} // verus!
