//! Core logic of the `roller` lighting controller: MIDI message decoding,
//! control-surface mappings and the state machines that drive button pads.
use vstd::prelude::*;

pub mod akai;
pub mod button;
pub mod button_states;
pub mod clock;
pub mod color;
pub mod control;
pub mod control_mapping;
pub mod dmx;
pub mod effect;
pub mod engine;
pub mod fixture;
pub mod midi;
pub mod offset;
pub mod ola;
pub mod position;
pub mod profile;
pub mod utils;

verus! {

} // verus!
