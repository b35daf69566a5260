//! The layout of the Akai APC mini: which MIDI note each button sends and
//! receives, and how button states are shown with its pad colours.
use vstd::prelude::*;

use crate::control::{ButtonCoordinate, ButtonGridLocation, ButtonState, FaderId, InputEvent};
use crate::midi::{read_next_spec, MidiEvent, Note};

verus! {

/// The colours a pad of the APC mini can show.
#[derive(Debug, Clone, Copy, PartialEq, Eq, Structural)]
pub enum AkaiPadState {
    Off,
    Green,
    GreenBlink,
    Red,
    RedBlink,
    Yellow,
    YellowBlink,
}

/// The velocity byte that selects each pad colour.
pub open spec fn pad_byte_spec(s: AkaiPadState) -> u8 {
    match s {
        AkaiPadState::Off => 0,
        AkaiPadState::Green => 1,
        AkaiPadState::GreenBlink => 2,
        AkaiPadState::Red => 3,
        AkaiPadState::RedBlink => 4,
        AkaiPadState::Yellow => 5,
        AkaiPadState::YellowBlink => 6,
    }
}

impl AkaiPadState {
    pub fn as_byte(self) -> (b: u8)
        ensures
            b == pad_byte_spec(self),
    {
        match self {
            AkaiPadState::Off => 0,
            AkaiPadState::Green => 1,
            AkaiPadState::GreenBlink => 2,
            AkaiPadState::Red => 3,
            AkaiPadState::RedBlink => 4,
            AkaiPadState::Yellow => 5,
            AkaiPadState::YellowBlink => 6,
        }
    }
}

/// Whether a pad is lit steadily or flashes.
#[derive(Debug, Clone, Copy, PartialEq, Eq, Structural)]
pub enum Illumination {
    Solid,
    Strobe,
}

/// A coordinate has a note on the device when the arithmetic below stays in range.
pub open spec fn coordinate_has_note(loc: ButtonGridLocation, coord: ButtonCoordinate) -> bool {
    match loc {
        ButtonGridLocation::Main => 8 * coord.row_idx + coord.column_idx <= usize::MAX,
        ButtonGridLocation::MetaRight => coord.row_idx <= 89,
        ButtonGridLocation::MetaBottom => 64 + coord.column_idx <= usize::MAX,
    }
}

/// The note of a button: row-major on the main 8x8 grid, counting down from 89
/// on the right-hand column and up from 64 on the bottom row; the number is cut
/// to its low byte.
pub open spec fn coordinate_to_note_spec(loc: ButtonGridLocation, coord: ButtonCoordinate) -> u8 {
    match loc {
        ButtonGridLocation::Main => (8 * coord.row_idx + coord.column_idx) as u8,
        ButtonGridLocation::MetaRight => (89 - coord.row_idx) as u8,
        ButtonGridLocation::MetaBottom => (64 + coord.column_idx) as u8,
    }
}

/// The button that sends a note, if any: notes below 64 are the main grid,
/// 64 to 71 the bottom row, 72 to 89 the right-hand column.
pub open spec fn note_to_coordinate_spec(note: u8) -> Option<(ButtonGridLocation, ButtonCoordinate)> {
    if note < 64 {
        Some((ButtonGridLocation::Main, ButtonCoordinate { row_idx: (note / 8) as usize, column_idx: (note % 8) as usize }))
    } else if note < 72 {
        Some((ButtonGridLocation::MetaBottom, ButtonCoordinate { row_idx: 0, column_idx: (note - 64) as usize }))
    } else if note < 90 {
        Some((ButtonGridLocation::MetaRight, ButtonCoordinate { row_idx: (89 - note) as usize, column_idx: 0 }))
    } else {
        None
    }
}

pub fn coordinate_to_note(loc: &ButtonGridLocation, coord: &ButtonCoordinate) -> (n: Note)
    requires
        coordinate_has_note(*loc, *coord),
    ensures
        n.0 == coordinate_to_note_spec(*loc, *coord),
{
    match loc {
        ButtonGridLocation::Main => Note::new((8 * coord.row_idx + coord.column_idx) as u8),
        ButtonGridLocation::MetaRight => Note::new((89 - coord.row_idx) as u8),
        ButtonGridLocation::MetaBottom => Note::new((64 + coord.column_idx) as u8),
    }
}

pub fn note_to_coordinate(note: Note) -> (r: Option<(ButtonGridLocation, ButtonCoordinate)>)
    ensures
        r == note_to_coordinate_spec(note.0),
{
    let note = note.value() as usize;
    if note < 64 {
        Some((ButtonGridLocation::Main, ButtonCoordinate { row_idx: note / 8, column_idx: note % 8 }))
    } else if note < 72 {
        Some((ButtonGridLocation::MetaBottom, ButtonCoordinate { row_idx: 0, column_idx: note - 64 }))
    } else if note < 90 {
        Some((ButtonGridLocation::MetaRight, ButtonCoordinate { row_idx: 89 - note, column_idx: 0 }))
    } else {
        None
    }
}

/// The buttons that physically exist on the device.
pub open spec fn is_device_button(loc: ButtonGridLocation, coord: ButtonCoordinate) -> bool {
    match loc {
        ButtonGridLocation::Main => coord.row_idx < 8 && coord.column_idx < 8,
        ButtonGridLocation::MetaBottom => coord.row_idx == 0 && coord.column_idx < 8,
        ButtonGridLocation::MetaRight => coord.row_idx < 18 && coord.column_idx == 0,
    }
}

/// Every button of the device sends a note that maps back to the same button.
pub proof fn lemma_button_note_roundtrip(loc: ButtonGridLocation, coord: ButtonCoordinate)
    requires
        is_device_button(loc, coord),
    ensures
        coordinate_has_note(loc, coord),
        note_to_coordinate_spec(coordinate_to_note_spec(loc, coord)) == Some((loc, coord)),
{
    match loc {
        ButtonGridLocation::Main => {
            let n = 8 * coord.row_idx + coord.column_idx;
            assert(n < 64);
            assert((n as u8) / 8 == coord.row_idx && (n as u8) % 8 == coord.column_idx) by (nonlinear_arith)
                requires n == 8 * coord.row_idx + coord.column_idx, coord.row_idx < 8, coord.column_idx < 8, n < 64;
        },
        _ => {},
    }
}

/// Every note that names a button is the note of that button.
pub proof fn lemma_note_button_roundtrip(note: u8)
    requires
        note_to_coordinate_spec(note) is Some,
    ensures
        ({
            let (loc, coord) = note_to_coordinate_spec(note).unwrap();
            &&& is_device_button(loc, coord)
            &&& coordinate_to_note_spec(loc, coord) == note
        }),
{
    if note < 64 {
        assert(8 * ((note / 8) as usize) + ((note % 8) as usize) == note) by (nonlinear_arith)
            requires note < 64;
    }
}

/// The pad colour and lighting used to show a button state: the main grid is
/// always steady, the meta buttons flash when active.
pub open spec fn pad_color_spec(location: ButtonGridLocation, state: ButtonState) -> (AkaiPadState, Illumination) {
    let color = match state {
        ButtonState::Active => AkaiPadState::Green,
        ButtonState::Inactive => AkaiPadState::Yellow,
        ButtonState::Deactivated => AkaiPadState::Red,
        ButtonState::Unused => AkaiPadState::Off,
    };
    let illumination = if location != ButtonGridLocation::Main && state == ButtonState::Active {
        Illumination::Strobe
    } else {
        Illumination::Solid
    };
    (color, illumination)
}

/// The colour of a pad depends on the button state alone, the same on every
/// grid: active is green, inactive yellow, deactivated red and unused dark.
/// Only the lighting depends on the grid: a pad flashes exactly when it is an
/// active meta button.
pub proof fn lemma_pad_color_by_state(location: ButtonGridLocation, other: ButtonGridLocation, state: ButtonState)
    ensures
        pad_color_spec(location, state).0 == pad_color_spec(other, state).0,
        state == ButtonState::Active ==> pad_color_spec(location, state).0 == AkaiPadState::Green,
        state == ButtonState::Inactive ==> pad_color_spec(location, state).0 == AkaiPadState::Yellow,
        state == ButtonState::Deactivated ==> pad_color_spec(location, state).0 == AkaiPadState::Red,
        state == ButtonState::Unused ==> pad_color_spec(location, state).0 == AkaiPadState::Off,
        (pad_color_spec(location, state).1 == Illumination::Strobe)
            <==> (location != ButtonGridLocation::Main && state == ButtonState::Active),
{
}

pub fn button_state_to_akai_pad_color(location: ButtonGridLocation, state: ButtonState) -> (r: (AkaiPadState, Illumination))
    ensures
        r == pad_color_spec(location, state),
{
    match location {
        ButtonGridLocation::Main => match state {
            ButtonState::Active => (AkaiPadState::Green, Illumination::Solid),
            ButtonState::Inactive => (AkaiPadState::Yellow, Illumination::Solid),
            ButtonState::Deactivated => (AkaiPadState::Red, Illumination::Solid),
            ButtonState::Unused => (AkaiPadState::Off, Illumination::Solid),
        },
        ButtonGridLocation::MetaBottom | ButtonGridLocation::MetaRight => match state {
            ButtonState::Active => (AkaiPadState::Green, Illumination::Strobe),
            ButtonState::Inactive => (AkaiPadState::Yellow, Illumination::Solid),
            ButtonState::Deactivated => (AkaiPadState::Red, Illumination::Solid),
            ButtonState::Unused => (AkaiPadState::Off, Illumination::Solid),
        },
    }
}

/// What has to be sent to the device to show `state` on a button: the button's
/// note, the pad colour and whether it flashes.
pub fn button_update(location: ButtonGridLocation, coordinate: ButtonCoordinate, state: ButtonState)
    -> (r: (Note, AkaiPadState, Illumination))
    requires
        coordinate_has_note(location, coordinate),
    ensures
        r.0.0 == coordinate_to_note_spec(location, coordinate),
        (r.1, r.2) == pad_color_spec(location, state),
{
    let note = coordinate_to_note(&location, &coordinate);
    let (pad_color, illumination) = button_state_to_akai_pad_color(location, state);
    (note, pad_color, illumination)
}

/// The MIDI message that lights a pad: a note-on for its note whose velocity
/// selects the colour.
pub fn pad_packet(note: Note, state: AkaiPadState) -> (p: Vec<u8>)
    ensures
        p@ == seq![0x90u8, note.0, pad_byte_spec(state)],
{
    vec![0x90u8, note.value(), state.as_byte()]
}

/// Decoding a pad message gives back the note-on that was encoded.
pub proof fn lemma_pad_packet_decodes(note: Note, state: AkaiPadState, p: Seq<u8>)
    requires
        p == seq![0x90u8, note.0, pad_byte_spec(state)],
    ensures
        read_next_spec(p).0 == Ok::<Option<MidiEvent>, crate::midi::MidiMessageError>(
            Some(MidiEvent::NoteOn { note, velocity: pad_byte_spec(state) })),
        read_next_spec(p).1.len() == 0,
{
    assert(p.drop_first() =~= seq![note.0, pad_byte_spec(state)]);
}

/// Whether a flashing pad is lit at a moment: during the first 100 ms of every 250 ms.
pub open spec fn strobe_state_spec(elapsed_millis: u128, state: AkaiPadState) -> AkaiPadState {
    if elapsed_millis % 250 < 100 { state } else { AkaiPadState::Off }
}

/// The colour a flashing pad shows `elapsed_millis` after the controller started.
pub fn strobe_state(elapsed_millis: u128, state: AkaiPadState) -> (s: AkaiPadState)
    ensures
        s == strobe_state_spec(elapsed_millis, state),
{
    if elapsed_millis % 250 < 100 { state } else { AkaiPadState::Off }
}

/// A MIDI event can be turned into an input when a control change names a fader
/// channel, that is one from 48 up.
pub open spec fn midi_event_acceptable(event: MidiEvent) -> bool {
    event matches MidiEvent::ControlChange { control, .. } ==> control.0 >= 48
}

/// The input a MIDI event from the device stands for. Control changes on channel
/// `48 + i` move fader `i` (the position is the raw 7-bit value); note-on and
/// note-off press and release the button that sends the note; anything else is
/// not an input.
pub open spec fn midi_to_input_event_spec(event: MidiEvent) -> Option<InputEvent<u8>> {
    match event {
        MidiEvent::ControlChange { control, value } =>
            Some(InputEvent::FaderUpdated(FaderId((control.0 - 48) as usize), value)),
        MidiEvent::NoteOn { note, .. } => match note_to_coordinate_spec(note.0) {
            Some((loc, coord)) => Some(InputEvent::ButtonPressed(loc, coord)),
            None => None,
        },
        MidiEvent::NoteOff { note, .. } => match note_to_coordinate_spec(note.0) {
            Some((loc, coord)) => Some(InputEvent::ButtonReleased(loc, coord)),
            None => None,
        },
        MidiEvent::TimingClock => None,
    }
}

pub fn midi_to_input_event(midi_event: &MidiEvent) -> (r: Option<InputEvent<u8>>)
    requires
        midi_event_acceptable(*midi_event),
    ensures
        r == midi_to_input_event_spec(*midi_event),
{
    match midi_event {
        MidiEvent::ControlChange { control, value } => {
            let fader_id = FaderId::new((control.value() - 48) as usize);
            Some(InputEvent::FaderUpdated(fader_id, *value))
        },
        MidiEvent::NoteOn { note, .. } => {
            match note_to_coordinate(*note) {
                Some((loc, coord)) => Some(InputEvent::ButtonPressed(loc, coord)),
                None => None,
            }
        },
        MidiEvent::NoteOff { note, .. } => {
            match note_to_coordinate(*note) {
                Some((loc, coord)) => Some(InputEvent::ButtonReleased(loc, coord)),
                None => None,
            }
        },
        _ => None,
    }
}

/// The pads that flash, each with the colour it flashes in. A note occurs
/// at most once.
pub struct PadStrobes {
    strobes: Vec<(Note, AkaiPadState)>,
}

impl View for PadStrobes {
    type V = Seq<(Note, AkaiPadState)>;

    closed spec fn view(&self) -> Seq<(Note, AkaiPadState)> {
        self.strobes@
    }
}

/// No note occurs twice.
pub open spec fn notes_unique(s: Seq<(Note, AkaiPadState)>) -> bool {
    forall|i: int, j: int| 0 <= i < j < s.len() ==> (#[trigger] s[i]).0 != (#[trigger] s[j]).0
}

/// Where a note is among the flashing pads, if it is there.
pub open spec fn strobe_pos(s: Seq<(Note, AkaiPadState)>, note: Note) -> Option<int> {
    if exists|i: int| 0 <= i < s.len() && (#[trigger] s[i]).0 == note {
        Some(choose|i: int| 0 <= i < s.len() && (#[trigger] s[i]).0 == note)
    } else {
        None
    }
}

/// The flashing pads after a pad is set: a steady pad stops flashing; a
/// flashing one flashes in its new colour (a pad new to flashing goes last).
pub open spec fn strobes_after(s: Seq<(Note, AkaiPadState)>, note: Note, state: AkaiPadState, illumination: Illumination) -> Seq<(Note, AkaiPadState)> {
    match illumination {
        Illumination::Solid => match strobe_pos(s, note) {
            Some(i) => s.remove(i),
            None => s,
        },
        Illumination::Strobe => match strobe_pos(s, note) {
            Some(i) => s.update(i, (note, state)),
            None => s.push((note, state)),
        },
    }
}

/// The message that shows one flashing pad `elapsed_millis` after the start.
pub open spec fn strobe_packet(entry: (Note, AkaiPadState), elapsed_millis: u128) -> Seq<u8> {
    seq![0x90u8, entry.0.0, pad_byte_spec(strobe_state_spec(elapsed_millis, entry.1))]
}

impl PadStrobes {
    pub fn new() -> (p: PadStrobes)
        ensures
            p@ == Seq::<(Note, AkaiPadState)>::empty(),
            notes_unique(p@),
    {
        let p = PadStrobes { strobes: Vec::new() };
        assert(p@ =~= Seq::<(Note, AkaiPadState)>::empty());
        p
    }

    fn find(&self, note: Note) -> (r: Option<usize>)
        requires
            notes_unique(self@),
        ensures
            match r {
                Some(i) => strobe_pos(self@, note) == Some(i as int) && i < self@.len(),
                None => strobe_pos(self@, note) is None,
            },
    {
        let mut i: usize = 0;
        while i < self.strobes.len()
            invariant
                notes_unique(self@),
                i <= self@.len(),
                forall|j: int| 0 <= j < i ==> (#[trigger] self@[j]).0 != note,
            decreases self@.len() - i,
        {
            if self.strobes[i].0 == note {
                proof {
                    let k = choose|k: int| 0 <= k < self@.len() && (#[trigger] self@[k]).0 == note;
                    if k < i {
                        assert(self@[k].0 != note);
                    } else if i < k {
                        assert(self@[i as int].0 != self@[k].0);
                    }
                }
                return Some(i);
            }
            i += 1;
        }
        None
    }

    /// Sets how a pad is shown. A steady pad stops flashing and its message
    /// is given back to be sent at once; a flashing pad is only recorded, and
    /// is sent at every tick.
    pub fn update(&mut self, note: Note, state: AkaiPadState, illumination: Illumination) -> (r: Option<Vec<u8>>)
        requires
            notes_unique(old(self)@),
        ensures
            final(self)@ == strobes_after(old(self)@, note, state, illumination),
            notes_unique(final(self)@),
            illumination == Illumination::Solid ==> (r matches Some(p) && p@ == seq![0x90u8, note.0, pad_byte_spec(state)]),
            illumination == Illumination::Strobe ==> r is None,
    {
        let ghost before = self@;
        let found = self.find(note);
        match illumination {
            Illumination::Solid => {
                match found {
                    Some(i) => {
                        self.strobes.remove(i);
                        proof {
                            assert forall|a: int, b: int| 0 <= a < b < self@.len() implies (#[trigger] self@[a]).0 != (#[trigger] self@[b]).0 by {
                                let a0 = if a < i { a } else { a + 1 };
                                let b0 = if b < i { b } else { b + 1 };
                                assert(self@[a] == before[a0]);
                                assert(self@[b] == before[b0]);
                                assert(before[a0].0 != before[b0].0);
                            }
                        }
                    },
                    None => {},
                }
                Some(pad_packet(note, state))
            },
            Illumination::Strobe => {
                match found {
                    Some(i) => {
                        self.strobes.set(i, (note, state));
                        proof {
                            assert forall|a: int, b: int| 0 <= a < b < self@.len() implies (#[trigger] self@[a]).0 != (#[trigger] self@[b]).0 by {
                                assert(before[a].0 != before[b].0);
                            }
                        }
                    },
                    None => {
                        self.strobes.push((note, state));
                        proof {
                            assert forall|a: int, b: int| 0 <= a < b < self@.len() implies (#[trigger] self@[a]).0 != (#[trigger] self@[b]).0 by {
                                if b < before.len() {
                                    assert(before[a].0 != before[b].0);
                                } else {
                                    assert(before[a].0 != note);
                                }
                            }
                        }
                    },
                }
                None
            },
        }
    }

    /// The messages to send at a tick `elapsed_millis` after the start: one
    /// per flashing pad, lit or dark by the strobe's rhythm.
    pub fn tick_packets(&self, elapsed_millis: u128) -> (r: Vec<Vec<u8>>)
        ensures
            r@.len() == self@.len(),
            forall|i: int| 0 <= i < self@.len() ==> (#[trigger] r@[i])@ == strobe_packet(self@[i], elapsed_millis),
    {
        let mut r: Vec<Vec<u8>> = Vec::new();
        let mut i: usize = 0;
        while i < self.strobes.len()
            invariant
                i <= self@.len(),
                r@.len() == i,
                forall|j: int| 0 <= j < i ==> (#[trigger] r@[j])@ == strobe_packet(self@[j], elapsed_millis),
            decreases self@.len() - i,
        {
            let (note, state) = self.strobes[i];
            r.push(pad_packet(note, strobe_state(elapsed_millis, state)));
            i += 1;
        }
        r
    }
}

} // verus!
