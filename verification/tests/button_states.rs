use roller::button::{ButtonGroupId, ButtonType, GroupToggleState};
use roller::button_states::{find_active_effects, global_color, secondary_color, ButtonStates};
use roller::color::Color;
use roller::control::{ButtonCoordinate, ButtonGridLocation, InputEvent, NoteState};

fn c(column: usize) -> ButtonCoordinate {
    ButtonCoordinate::new(column, 0)
}

#[test]
fn updates_keep_the_latest_state_last() {
    let mut s: ButtonStates<u32, f64> = ButtonStates::new();
    let g = ButtonGroupId(0);
    s.update_button_state(g, ButtonType::Flash, 0, c(0), NoteState::On, 1, 1.0);
    s.update_button_state(g, ButtonType::Flash, 0, c(0), NoteState::Off, 2, 1.0);
    s.update_button_state(g, ButtonType::Flash, 0, c(0), NoteState::On, 3, 1.0);
    let infos = s.iter_info();
    assert_eq!(infos.len(), 2);
    assert_eq!(infos[0].note_state, NoteState::Off);
    assert_eq!(infos[0].triggered_at, 2);
    assert_eq!(infos[1].note_state, NoteState::On);
    assert_eq!(infos[1].triggered_at, 3);
}

#[test]
fn presses_toggle_the_group() {
    let mut s: ButtonStates<u32, f64> = ButtonStates::new();
    let g = ButtonGroupId(3);
    s.update_button_state(g, ButtonType::Toggle, 1, c(1), NoteState::On, 1, 1.0);
    assert_eq!(s.iter_info()[0].toggle_state, GroupToggleState::On(c(1)));
    s.update_button_state(g, ButtonType::Toggle, 1, c(1), NoteState::Off, 2, 1.0);
    assert_eq!(s.iter_info()[0].toggle_state, GroupToggleState::On(c(1)));
    s.update_button_state(g, ButtonType::Toggle, 1, c(1), NoteState::On, 3, 1.0);
    assert_eq!(s.iter_info()[0].toggle_state, GroupToggleState::Off);
}

#[test]
fn pressed_buttons_and_rates() {
    let mut s: ButtonStates<u32, f64> = ButtonStates::new();
    s.update_button_state(ButtonGroupId(0), ButtonType::Flash, 0, c(0), NoteState::On, 1, 1.0);
    s.update_button_state(ButtonGroupId(1), ButtonType::Switch, 0, c(5), NoteState::On, 2, 1.0);
    s.update_button_state(ButtonGroupId(1), ButtonType::Switch, 0, c(5), NoteState::Off, 3, 1.0);
    let held = s.pressed_buttons();
    assert_eq!(held.len(), 1);
    assert_eq!(held[0].group, ButtonGroupId(0));
    assert_eq!(s.pressed_coords(), vec![c(0)]);
    assert_eq!(s.update_pressed_button_rates(0.5), 1);
    let infos = s.iter_info();
    assert_eq!(infos[0].effect_rate, 0.5);
    assert_eq!(infos[1].effect_rate, 1.0);
    // a new state of a button keeps its rate
    s.update_button_state(ButtonGroupId(0), ButtonType::Flash, 0, c(0), NoteState::On, 9, 1.0);
    assert_eq!(s.iter_info()[0].effect_rate, 0.5);
}

#[test]
fn flash_effects_last_while_held() {
    let mut s: ButtonStates<u32, f64> = ButtonStates::new();
    let g = ButtonGroupId(0);
    s.update_button_state(g, ButtonType::Flash, 0, c(0), NoteState::On, 1, 2.0);
    s.update_button_state(g, ButtonType::Flash, 1, c(1), NoteState::On, 2, 3.0);
    let infos = s.iter_info();
    let effects = vec![Some(10u64), Some(11u64)];
    assert_eq!(find_active_effects(&infos, &effects), vec![(10, 2.0), (11, 3.0)]);
    s.update_button_state(g, ButtonType::Flash, 0, c(0), NoteState::Off, 3, 2.0);
    let infos = s.iter_info();
    let effects: Vec<Option<u64>> = infos.iter().map(|i| Some(10 + i.index as u64)).collect();
    assert_eq!(find_active_effects(&infos, &effects), vec![(11, 3.0)]);
}

#[test]
fn switch_effects_move_to_the_end() {
    let mut s: ButtonStates<u32, f64> = ButtonStates::new();
    let g = ButtonGroupId(0);
    s.update_button_state(g, ButtonType::Switch, 0, c(0), NoteState::On, 1, 1.0);
    s.update_button_state(g, ButtonType::Switch, 1, c(1), NoteState::On, 2, 1.0);
    s.update_button_state(g, ButtonType::Switch, 0, c(0), NoteState::Off, 3, 1.0);
    s.update_button_state(g, ButtonType::Switch, 0, c(0), NoteState::On, 4, 1.0);
    let infos = s.iter_info();
    let effects: Vec<Option<u64>> = infos.iter().map(|i| Some(i.index as u64)).collect();
    let active: Vec<u64> = find_active_effects(&infos, &effects).iter().map(|(k, _)| *k).collect();
    assert_eq!(active, vec![1, 0]);
}

#[test]
fn toggle_effects_need_the_group_on_with_them() {
    let mut s: ButtonStates<u32, f64> = ButtonStates::new();
    let g = ButtonGroupId(0);
    s.update_button_state(g, ButtonType::Toggle, 0, c(0), NoteState::On, 1, 1.0);
    let infos = s.iter_info();
    assert_eq!(find_active_effects(&infos, &[Some(7)]), vec![(7, 1.0)]);
    s.update_button_state(g, ButtonType::Toggle, 0, c(0), NoteState::On, 2, 1.0);
    let infos = s.iter_info();
    assert_eq!(find_active_effects(&infos, &[Some(7)]), vec![]);
    assert_eq!(find_active_effects(&infos, &[None]), vec![]);
}

#[test]
fn global_colour_is_the_latest_held_or_released() {
    let mut s: ButtonStates<u32, f64> = ButtonStates::new();
    let g = ButtonGroupId(0);
    let colour_of = |i: usize| if i == 0 { Color::Red } else { Color::Teal };
    s.update_button_state(g, ButtonType::Switch, 0, c(0), NoteState::On, 1, 1.0);
    s.update_button_state(g, ButtonType::Switch, 1, c(1), NoteState::On, 2, 1.0);
    let infos = s.iter_info();
    let colors: Vec<Option<Color>> = infos.iter().map(|i| Some(colour_of(i.index))).collect();
    assert_eq!(global_color(&infos, &colors), Some(Color::Teal));
    s.update_button_state(g, ButtonType::Switch, 1, c(1), NoteState::Off, 3, 1.0);
    let infos = s.iter_info();
    let colors: Vec<Option<Color>> = infos.iter().map(|i| Some(colour_of(i.index))).collect();
    assert_eq!(global_color(&infos, &colors), Some(Color::Red));
    s.update_button_state(g, ButtonType::Switch, 0, c(0), NoteState::Off, 4, 1.0);
    let infos = s.iter_info();
    let colors: Vec<Option<Color>> = infos.iter().map(|i| Some(colour_of(i.index))).collect();
    assert_eq!(global_color(&infos, &colors), Some(Color::Red));
    assert_eq!(global_color::<u32, f64>(&[], &[]), None);
}

#[test]
fn secondary_colour_follows_the_toggle() {
    let mut s: ButtonStates<u32, f64> = ButtonStates::new();
    let g = ButtonGroupId(0);
    s.update_button_state(g, ButtonType::Toggle, 0, c(0), NoteState::On, 1, 1.0);
    let infos = s.iter_info();
    assert_eq!(secondary_color(&infos, &[Some(Color::Green)]), Some(Color::Green));
    s.update_button_state(g, ButtonType::Toggle, 0, c(0), NoteState::On, 2, 1.0);
    let infos = s.iter_info();
    assert_eq!(secondary_color(&infos, &[Some(Color::Green)]), None);
}

#[test]
fn states_replay_as_inputs() {
    let mut s: ButtonStates<u32, f64> = ButtonStates::new();
    s.update_button_state(ButtonGroupId(0), ButtonType::Flash, 0, c(2), NoteState::On, 1, 1.0);
    s.update_button_state(ButtonGroupId(1), ButtonType::Switch, 0, c(3), NoteState::Off, 2, 1.0);
    let events: Vec<InputEvent<u8>> = s.input_events();
    assert_eq!(
        events,
        vec![
            InputEvent::ButtonPressed(ButtonGridLocation::Main, c(2)),
            InputEvent::ButtonReleased(ButtonGridLocation::Main, c(3)),
        ]
    );
}

#[test]
fn a_button_is_held_after_its_press_only() {
    let mut s: ButtonStates<u32, f64> = ButtonStates::new();
    let g = ButtonGroupId(4);
    s.update_button_state(g, ButtonType::Toggle, 1, c(1), NoteState::On, 1, 1.0);
    assert_eq!(s.pressed_buttons().len(), 1);
    s.update_button_state(g, ButtonType::Toggle, 1, c(1), NoteState::Off, 2, 1.0);
    assert!(s.pressed_buttons().is_empty());
    s.update_button_state(g, ButtonType::Toggle, 1, c(1), NoteState::On, 3, 1.0);
    assert_eq!(s.pressed_buttons()[0].triggered_at, 3);
}

#[test]
fn toggle_states_per_group() {
    let mut s: ButtonStates<u32, f64> = ButtonStates::new();
    s.update_button_state(ButtonGroupId(7), ButtonType::Toggle, 0, c(0), NoteState::On, 1, 1.0);
    s.update_button_state(ButtonGroupId(2), ButtonType::Flash, 0, c(1), NoteState::Off, 2, 1.0);
    assert_eq!(
        s.group_toggle_states(),
        vec![(ButtonGroupId(7), GroupToggleState::On(c(0))), (ButtonGroupId(2), GroupToggleState::Off)]
    );
}
