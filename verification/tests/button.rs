use std::collections::HashMap;

use roller::button::{
    changed_button_states, pad_states, ButtonGroup, ButtonGroupId, ButtonMapping, ButtonRef, ButtonType, GroupToggleState,
    MetaButtonMapping, Pad, PadAction, PadGroup,
};
use roller::control::{ButtonCoordinate, ButtonGridLocation, ButtonState, FaderId, InputEvent};
use roller::control_mapping::{ControlMapping, FaderControlMapping, FaderType};

fn mapping(label: &str, column: usize, row: usize, action: u32) -> ButtonMapping<u32> {
    ButtonMapping { label: label.to_string(), coordinate: ButtonCoordinate::new(column, row), on_action: action }
}

#[test]
fn group_ids_count_up() {
    let mut next = 0usize;
    assert_eq!(ButtonGroupId::new(&mut next), ButtonGroupId(0));
    assert_eq!(ButtonGroupId::new(&mut next), ButtonGroupId(1));
    assert_eq!(next, 2);
    let mut last = usize::MAX;
    assert_eq!(ButtonGroupId::new(&mut last), ButtonGroupId(usize::MAX));
    assert_eq!(last, 0);
}

#[test]
fn toggle_with_same_button_turns_off() {
    let a = ButtonCoordinate::new(0, 0);
    let b = ButtonCoordinate::new(1, 0);
    let on_a = GroupToggleState::Off.toggle(a);
    assert_eq!(on_a, GroupToggleState::On(a));
    assert_eq!(on_a.toggle(a), GroupToggleState::Off);
    assert_eq!(on_a.toggle(b), GroupToggleState::On(b));
    let mut s = GroupToggleState::Off;
    s.toggle_mut(b);
    assert_eq!(s, GroupToggleState::On(b));
}

#[test]
fn groups_find_their_buttons() {
    let mut next = 5usize;
    let group = ButtonGroup::new(
        &mut next,
        ButtonType::Switch,
        vec![mapping("a", 0, 0, 10), mapping("b", 1, 0, 11), mapping("c", 1, 0, 12)],
    );
    assert_eq!(group.id(), ButtonGroupId(5));
    let found = group.find_button(&ButtonGridLocation::Main, &ButtonCoordinate::new(1, 0)).unwrap();
    assert_eq!(found.on_action, 11);
    assert!(group.find_button(&ButtonGridLocation::MetaRight, &ButtonCoordinate::new(1, 0)).is_none());
    assert!(group.find_button(&ButtonGridLocation::Main, &ButtonCoordinate::new(3, 3)).is_none());
    assert_eq!(
        group.find_button_ref(&ButtonGridLocation::Main, &ButtonCoordinate::new(1, 0)),
        Some(ButtonRef::Standard {
            group: ButtonGroupId(5),
            button_type: ButtonType::Switch,
            index: 1,
            coordinate: ButtonCoordinate::new(1, 0),
        })
    );
    assert_eq!(group.button_refs().len(), 3);
}

#[test]
fn single_button_groups() {
    let mut next = 0usize;
    let group = mapping("x", 2, 2, 1).into_group(&mut next, ButtonType::Flash);
    assert_eq!(group.buttons.len(), 1);
    assert_eq!(group.button_type, ButtonType::Flash);
    assert_eq!(next, 1);
}

#[test]
fn refs_report_their_button() {
    let r = ButtonRef::Meta { location: ButtonGridLocation::MetaRight, coordinate: ButtonCoordinate::new(0, 3) };
    assert_eq!(r.location(), ButtonGridLocation::MetaRight);
    assert_eq!(r.coordinate(), ButtonCoordinate::new(0, 3));
    assert_eq!(r.button_type(), ButtonType::Switch);
}

#[test]
fn flash_pad_follows_the_button() {
    let r = ButtonRef::Standard {
        group: ButtonGroupId(0),
        button_type: ButtonType::Flash,
        index: 0,
        coordinate: ButtonCoordinate::new(0, 0),
    };
    let mut pad = Pad::new(r);
    assert_eq!(pad.state, ButtonState::Inactive);
    pad.apply_event(PadAction::Pressed, &GroupToggleState::Off, &[r]);
    assert_eq!(pad.state, ButtonState::Active);
    pad.apply_event(PadAction::Released, &GroupToggleState::Off, &[]);
    assert_eq!(pad.state, ButtonState::Inactive);
}

#[test]
fn switch_group_pads() {
    let mut next = 0usize;
    let group = ButtonGroup::new(&mut next, ButtonType::Switch, vec![mapping("a", 0, 0, 1), mapping("b", 1, 0, 2)]);
    let mut pads = PadGroup::new(&group, GroupToggleState::Off);
    let press: InputEvent<u8> = InputEvent::ButtonPressed(ButtonGridLocation::Main, ButtonCoordinate::new(0, 0));
    pads.apply_event(&press);
    assert_eq!(pads.pads[0].state, ButtonState::Active);
    assert_eq!(pads.pads[1].state, ButtonState::Deactivated);
    let release: InputEvent<u8> = InputEvent::ButtonReleased(ButtonGridLocation::Main, ButtonCoordinate::new(0, 0));
    pads.apply_event(&release);
    assert_eq!(pads.pads[0].state, ButtonState::Active);
    assert_eq!(pads.pads[1].state, ButtonState::Inactive);
    assert!(pads.active_buttons.is_empty());
}

#[test]
fn pad_states_replays_inputs() {
    let mut next = 0usize;
    let switches = ButtonGroup::new(&mut next, ButtonType::Switch, vec![mapping("a", 0, 0, 1), mapping("b", 1, 0, 2)]);
    let toggles = ButtonGroup::new(&mut next, ButtonType::Toggle, vec![mapping("t", 0, 1, 3), mapping("u", 1, 1, 4)]);
    let meta = MetaButtonMapping {
        location: ButtonGridLocation::MetaBottom,
        coordinate: ButtonCoordinate::new(0, 0),
        on_action: 'm',
        off_action: None,
    };
    let fader: FaderControlMapping<()> =
        FaderControlMapping { id: FaderId::new(0), fader_type: FaderType::MasterDimmer, fader_curve: () };
    let cm = ControlMapping::new(vec![fader], vec![switches, toggles], vec![meta]);
    let mut toggle_states = HashMap::new();
    toggle_states.insert(1usize, GroupToggleState::On(ButtonCoordinate::new(1, 1)));
    let events: Vec<InputEvent<u8>> = vec![
        InputEvent::ButtonPressed(ButtonGridLocation::Main, ButtonCoordinate::new(1, 0)),
        InputEvent::ButtonPressed(ButtonGridLocation::MetaBottom, ButtonCoordinate::new(0, 0)),
        InputEvent::FaderUpdated(FaderId::new(0), 3),
    ];
    let states = pad_states(&cm, &toggle_states, events);
    let only_states: Vec<ButtonState> = states.iter().map(|(_, s)| *s).collect();
    assert_eq!(
        only_states,
        vec![
            ButtonState::Deactivated,
            ButtonState::Active,
            ButtonState::Inactive,
            ButtonState::Inactive,
            ButtonState::Active,
        ]
    );
    assert_eq!(
        states[4].0,
        ButtonRef::Meta { location: ButtonGridLocation::MetaBottom, coordinate: ButtonCoordinate::new(0, 0) }
    );
}

#[test]
fn toggle_pads_follow_the_group_state() {
    let mut next = 0usize;
    let toggles = ButtonGroup::new(&mut next, ButtonType::Toggle, vec![mapping("t", 0, 1, 3), mapping("u", 1, 1, 4)]);
    let cm: ControlMapping<u32, (), ()> = ControlMapping::new(vec![], vec![toggles], vec![]);
    let mut toggle_states = HashMap::new();
    toggle_states.insert(0usize, GroupToggleState::On(ButtonCoordinate::new(1, 1)));
    let events: Vec<InputEvent<u8>> =
        vec![InputEvent::ButtonPressed(ButtonGridLocation::Main, ButtonCoordinate::new(0, 1))];
    let states = pad_states(&cm, &toggle_states, events);
    assert_eq!(states[0].1, ButtonState::Inactive);
    assert_eq!(states[1].1, ButtonState::Active);
}

#[test]
fn changed_states_are_the_new_or_different_ones() {
    let a = ButtonRef::Meta { location: ButtonGridLocation::MetaRight, coordinate: ButtonCoordinate::new(0, 1) };
    let b = ButtonRef::Meta { location: ButtonGridLocation::MetaBottom, coordinate: ButtonCoordinate::new(2, 0) };
    let c = ButtonRef::Standard {
        group: ButtonGroupId(1),
        button_type: ButtonType::Flash,
        index: 0,
        coordinate: ButtonCoordinate::new(4, 4),
    };
    let previous = vec![(a, ButtonState::Active), (b, ButtonState::Inactive)];
    let current = vec![(a, ButtonState::Active), (b, ButtonState::Active), (c, ButtonState::Inactive)];
    assert_eq!(
        changed_button_states(&previous, &current),
        vec![
            (ButtonGridLocation::MetaBottom, ButtonCoordinate::new(2, 0), ButtonState::Active),
            (ButtonGridLocation::Main, ButtonCoordinate::new(4, 4), ButtonState::Inactive),
        ]
    );
    assert!(changed_button_states(&current, &current).is_empty());
}
