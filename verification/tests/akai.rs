use roller::akai::{
    button_state_to_akai_pad_color, button_update, coordinate_to_note, midi_to_input_event,
    note_to_coordinate, pad_packet, strobe_state, AkaiPadState, Illumination, PadStrobes,
};
use roller::control::{ButtonCoordinate, ButtonGridLocation, ButtonState, FaderId, InputEvent};
use roller::midi::{ControlChannel, MidiEvent, Note};

#[test]
fn pad_bytes() {
    assert_eq!(AkaiPadState::Off.as_byte(), 0);
    assert_eq!(AkaiPadState::Green.as_byte(), 1);
    assert_eq!(AkaiPadState::YellowBlink.as_byte(), 6);
}

#[test]
fn main_grid_notes() {
    let coord = ButtonCoordinate::new(3, 2);
    assert_eq!(coordinate_to_note(&ButtonGridLocation::Main, &coord), Note::new(19));
    assert_eq!(
        note_to_coordinate(Note::new(19)),
        Some((ButtonGridLocation::Main, ButtonCoordinate::new(3, 2)))
    );
}

#[test]
fn meta_grid_notes() {
    assert_eq!(
        coordinate_to_note(&ButtonGridLocation::MetaBottom, &ButtonCoordinate::new(2, 0)),
        Note::new(66)
    );
    assert_eq!(
        coordinate_to_note(&ButtonGridLocation::MetaRight, &ButtonCoordinate::new(0, 7)),
        Note::new(82)
    );
    assert_eq!(
        note_to_coordinate(Note::new(66)),
        Some((ButtonGridLocation::MetaBottom, ButtonCoordinate::new(2, 0)))
    );
    assert_eq!(
        note_to_coordinate(Note::new(89)),
        Some((ButtonGridLocation::MetaRight, ButtonCoordinate::new(0, 0)))
    );
    assert_eq!(note_to_coordinate(Note::new(90)), None);
}

#[test]
fn every_note_below_ninety_round_trips() {
    for n in 0u8..90 {
        let (loc, coord) = note_to_coordinate(Note::new(n)).unwrap();
        assert_eq!(coordinate_to_note(&loc, &coord), Note::new(n));
    }
}

#[test]
fn pad_colours() {
    assert_eq!(
        button_state_to_akai_pad_color(ButtonGridLocation::Main, ButtonState::Active),
        (AkaiPadState::Green, Illumination::Solid)
    );
    let (_, illumination) =
        button_state_to_akai_pad_color(ButtonGridLocation::Main, ButtonState::Unused);
    assert_eq!(illumination, Illumination::Solid);
}

#[test]
fn button_update_names_the_note() {
    let (note, _, _) =
        button_update(ButtonGridLocation::Main, ButtonCoordinate::new(0, 1), ButtonState::Active);
    assert_eq!(note, Note::new(8));
}

#[test]
fn pad_packet_is_a_note_on() {
    let p = pad_packet(Note::new(8), AkaiPadState::Red);
    assert_eq!(p, vec![0x90, 8, 3]);
    assert_eq!(
        MidiEvent::from_bytes(&p),
        Ok(Some(MidiEvent::NoteOn { note: Note::new(8), velocity: 3 }))
    );
}

#[test]
fn strobe_blinks() {
    assert_eq!(strobe_state(0, AkaiPadState::Green), AkaiPadState::Green);
    assert_eq!(strobe_state(99, AkaiPadState::Green), AkaiPadState::Green);
    assert_eq!(strobe_state(100, AkaiPadState::Green), AkaiPadState::Off);
    assert_eq!(strobe_state(250, AkaiPadState::Green), AkaiPadState::Green);
}

#[test]
fn midi_to_inputs() {
    let cc = MidiEvent::ControlChange { control: ControlChannel::new(50), value: 7 };
    assert_eq!(midi_to_input_event(&cc), Some(InputEvent::FaderUpdated(FaderId::new(2), 7)));
    let on = MidiEvent::NoteOn { note: Note::new(64), velocity: 1 };
    assert_eq!(
        midi_to_input_event(&on),
        Some(InputEvent::ButtonPressed(ButtonGridLocation::MetaBottom, ButtonCoordinate::new(0, 0)))
    );
    let off = MidiEvent::NoteOff { note: Note::new(0), velocity: 0 };
    assert_eq!(
        midi_to_input_event(&off),
        Some(InputEvent::ButtonReleased(ButtonGridLocation::Main, ButtonCoordinate::new(0, 0)))
    );
    assert_eq!(midi_to_input_event(&MidiEvent::NoteOn { note: Note::new(100), velocity: 1 }), None);
    assert_eq!(midi_to_input_event(&MidiEvent::TimingClock), None);
}

#[test]
fn active_meta_buttons_flash() {
    assert_eq!(
        button_state_to_akai_pad_color(ButtonGridLocation::MetaBottom, ButtonState::Active),
        (AkaiPadState::Green, Illumination::Strobe)
    );
    assert_eq!(
        button_state_to_akai_pad_color(ButtonGridLocation::MetaRight, ButtonState::Deactivated),
        (AkaiPadState::Red, Illumination::Solid)
    );
    assert_eq!(
        button_state_to_akai_pad_color(ButtonGridLocation::MetaRight, ButtonState::Inactive),
        (AkaiPadState::Yellow, Illumination::Solid)
    );
}

#[test]
fn steady_pads_are_sent_at_once_and_flashing_ones_at_ticks() {
    let mut strobes = PadStrobes::new();
    assert_eq!(strobes.update(Note::new(64), AkaiPadState::Green, Illumination::Strobe), None);
    assert_eq!(strobes.update(Note::new(65), AkaiPadState::Red, Illumination::Strobe), None);
    assert_eq!(strobes.tick_packets(50), vec![vec![0x90, 64, 1], vec![0x90, 65, 3]]);
    assert_eq!(strobes.tick_packets(150), vec![vec![0x90, 64, 0], vec![0x90, 65, 0]]);
    assert_eq!(strobes.update(Note::new(64), AkaiPadState::Yellow, Illumination::Solid), Some(vec![0x90, 64, 5]));
    assert_eq!(strobes.tick_packets(0), vec![vec![0x90, 65, 3]]);
    strobes.update(Note::new(65), AkaiPadState::Green, Illumination::Strobe);
    assert_eq!(strobes.tick_packets(0), vec![vec![0x90, 65, 1]]);
}
