use roller::engine::{ControlMode, MetaButtonAction, SceneId, Selection, SelectionEvent, SelectionReset};
use roller::fixture::FixtureGroupId;

#[test]
fn starts_on_the_first_scene() {
    let s = Selection::new();
    assert_eq!(s.control_mode, ControlMode::Normal);
    assert_eq!(s.active_scene_id, SceneId::new(1));
    assert_eq!(s.active_fixture_group_control, None);
}

#[test]
fn selecting_a_group_toggles_it() {
    let mut s = Selection::new();
    let g = FixtureGroupId::new(2);
    assert_eq!(s.apply(SelectionEvent::SelectFixtureGroupControl(g)), SelectionReset::Nothing);
    assert_eq!(s.active_fixture_group_control, Some(g));
    s.apply(SelectionEvent::SelectFixtureGroupControl(g));
    assert_eq!(s.active_fixture_group_control, None);
    s.apply(SelectionEvent::SelectFixtureGroupControl(g));
    s.apply(SelectionEvent::SelectFixtureGroupControl(FixtureGroupId::new(3)));
    assert_eq!(s.active_fixture_group_control, Some(FixtureGroupId::new(3)));
}

#[test]
fn selecting_a_scene_resets_the_group() {
    let mut s = Selection::new();
    s.apply(SelectionEvent::SelectFixtureGroupControl(FixtureGroupId::new(1)));
    s.apply(SelectionEvent::SelectScene(SceneId::new(4)));
    assert_eq!(s.active_scene_id, SceneId::new(4));
    assert_eq!(s.active_fixture_group_control, None);
}

#[test]
fn shift_clears_instead_of_selecting() {
    let mut s = Selection::new();
    s.apply(SelectionEvent::SelectScene(SceneId::new(2)));
    assert_eq!(s.apply(SelectionEvent::UpdateControlMode(ControlMode::Shift)), SelectionReset::Nothing);
    assert_eq!(s.apply(SelectionEvent::SelectScene(SceneId::new(3))), SelectionReset::Scene(SceneId::new(3)));
    assert_eq!(
        s.apply(SelectionEvent::SelectFixtureGroupControl(FixtureGroupId::new(1))),
        SelectionReset::FixtureGroup(SceneId::new(2), FixtureGroupId::new(1))
    );
    assert_eq!(s.active_scene_id, SceneId::new(2));
    assert_eq!(s.active_fixture_group_control, None);
    s.apply(SelectionEvent::UpdateControlMode(ControlMode::Normal));
    assert_eq!(s.control_mode, ControlMode::Normal);
}

#[test]
fn meta_actions_map_to_selection_events() {
    let shift: MetaButtonAction<f64> = MetaButtonAction::EnableShiftMode;
    assert_eq!(shift.selection_event(), Some(SelectionEvent::UpdateControlMode(ControlMode::Shift)));
    let normal: MetaButtonAction<f64> = MetaButtonAction::DisableShiftMode;
    assert_eq!(normal.selection_event(), Some(SelectionEvent::UpdateControlMode(ControlMode::Normal)));
    assert_eq!(MetaButtonAction::UpdateClockRate(0.5f64).selection_event(), None);
    let tap: MetaButtonAction<f64> = MetaButtonAction::TapTempo;
    assert_eq!(tap.selection_event(), None);
    let scene: MetaButtonAction<f64> = MetaButtonAction::SelectScene(SceneId::new(3));
    assert_eq!(scene.selection_event(), Some(SelectionEvent::SelectScene(SceneId::new(3))));
    let group: MetaButtonAction<f64> = MetaButtonAction::SelectFixtureGroupControl(FixtureGroupId::new(2));
    assert_eq!(group.selection_event(), Some(SelectionEvent::SelectFixtureGroupControl(FixtureGroupId::new(2))));
}
