//! The selection state of the lighting engine: which scene plays, which
//! fixture group the controls act on, and whether shift is held.
use vstd::prelude::*;

use crate::fixture::FixtureGroupId;

verus! {

/// Identifies a scene: a full set of button and fader states.
#[derive(Debug, Copy, Clone, PartialEq, Eq, Hash, PartialOrd, Structural)]
pub struct SceneId(pub usize);

impl SceneId {
    pub fn new(id: usize) -> (s: SceneId)
        ensures
            s.0 == id,
    {
        SceneId(id)
    }
}

/// With shift held, selecting a scene or a fixture group clears it instead.
#[derive(Debug, Copy, Clone, PartialEq, Eq, Hash, Structural)]
pub enum ControlMode {
    Shift,
    Normal,
}

/// The events that change what is selected.
#[derive(Debug, Copy, Clone, PartialEq, Eq, Structural)]
pub enum SelectionEvent {
    UpdateControlMode(ControlMode),
    SelectScene(SceneId),
    SelectFixtureGroupControl(FixtureGroupId),
}

/// State that an event asks to be cleared, back to its defaults.
#[derive(Debug, Copy, Clone, PartialEq, Eq, Structural)]
pub enum SelectionReset {
    Nothing,
    /// Every button and fader state of a scene.
    Scene(SceneId),
    /// The states of a fixture group within a scene.
    FixtureGroup(SceneId, FixtureGroupId),
}

/// What the engine has selected. When no fixture group is selected the
/// controls act on the scene's base state, which covers every fixture.
#[derive(Debug, Copy, Clone, PartialEq, Eq, Structural)]
pub struct Selection {
    pub control_mode: ControlMode,
    pub active_scene_id: SceneId,
    pub active_fixture_group_control: Option<FixtureGroupId>,
}

/// The selection after `event`, and what it asks to be cleared.
pub open spec fn selection_step(s: Selection, event: SelectionEvent) -> (Selection, SelectionReset) {
    match event {
        SelectionEvent::UpdateControlMode(mode) => (Selection { control_mode: mode, ..s }, SelectionReset::Nothing),
        SelectionEvent::SelectScene(scene_id) => match s.control_mode {
            ControlMode::Normal => (
                Selection { active_scene_id: scene_id, active_fixture_group_control: None, ..s },
                SelectionReset::Nothing,
            ),
            ControlMode::Shift => (s, SelectionReset::Scene(scene_id)),
        },
        SelectionEvent::SelectFixtureGroupControl(group_id) => match s.control_mode {
            ControlMode::Normal => (
                Selection {
                    active_fixture_group_control: if s.active_fixture_group_control == Some(group_id) {
                        None
                    } else {
                        Some(group_id)
                    },
                    ..s
                },
                SelectionReset::Nothing,
            ),
            ControlMode::Shift => (s, SelectionReset::FixtureGroup(s.active_scene_id, group_id)),
        },
    }
}

impl Selection {
    /// The selection the engine starts with: the first scene, no fixture
    /// group, shift released.
    pub fn new() -> (s: Selection)
        ensures
            s.control_mode == ControlMode::Normal,
            s.active_scene_id == SceneId(1),
            s.active_fixture_group_control is None,
    {
        Selection { control_mode: ControlMode::Normal, active_scene_id: SceneId(1), active_fixture_group_control: None }
    }

    /// Applies `event` and tells what state must be cleared because of it.
    pub fn apply(&mut self, event: SelectionEvent) -> (r: SelectionReset)
        ensures
            (*final(self), r) == selection_step(*old(self), event),
    {
        match event {
            SelectionEvent::UpdateControlMode(mode) => {
                self.control_mode = mode;
                SelectionReset::Nothing
            },
            SelectionEvent::SelectScene(scene_id) => match self.control_mode {
                ControlMode::Normal => {
                    self.active_scene_id = scene_id;
                    self.active_fixture_group_control = None;
                    SelectionReset::Nothing
                },
                ControlMode::Shift => SelectionReset::Scene(scene_id),
            },
            SelectionEvent::SelectFixtureGroupControl(group_id) => match self.control_mode {
                ControlMode::Normal => {
                    let same = match self.active_fixture_group_control {
                        Some(active) => active == group_id,
                        None => false,
                    };
                    if same {
                        self.active_fixture_group_control = None;
                    } else {
                        self.active_fixture_group_control = Some(group_id);
                    }
                    SelectionReset::Nothing
                },
                ControlMode::Shift => SelectionReset::FixtureGroup(self.active_scene_id, group_id),
            },
        }
    }
}

/// Selecting a fixture group toggles it: selecting the same group twice,
/// shift released, gives back the selection, unless another group was
/// selected before (then the second press leaves no group selected).
pub proof fn lemma_select_group_twice(s: Selection, group_id: FixtureGroupId)
    requires
        s.control_mode == ControlMode::Normal,
        s.active_fixture_group_control is None || s.active_fixture_group_control == Some(group_id),
    ensures
        selection_step(
            selection_step(s, SelectionEvent::SelectFixtureGroupControl(group_id)).0,
            SelectionEvent::SelectFixtureGroupControl(group_id),
        ).0 == s,
{
}

/// With shift held, selecting a scene or a group leaves the selection as it is
/// and only asks for state to be cleared.
pub proof fn lemma_shift_keeps_selection(s: Selection, event: SelectionEvent)
    requires
        s.control_mode == ControlMode::Shift,
        !(event is UpdateControlMode),
    ensures
        selection_step(s, event).0 == s,
        selection_step(s, event).1 != SelectionReset::Nothing,
{
}

/// Choosing a scene, shift released, makes it the active one and puts the
/// controls back on the scene's base state.
pub proof fn lemma_select_scene(s: Selection, scene_id: SceneId)
    requires
        s.control_mode == ControlMode::Normal,
    ensures
        selection_step(s, SelectionEvent::SelectScene(scene_id)).0.active_scene_id == scene_id,
        selection_step(s, SelectionEvent::SelectScene(scene_id)).0.active_fixture_group_control is None,
{
}

/// What a meta button does; `R` is a clock rate.
#[derive(Debug, Clone, Copy, PartialEq)]
pub enum MetaButtonAction<R> {
    EnableShiftMode,
    DisableShiftMode,
    TapTempo,
    UpdateClockRate(R),
    SelectScene(SceneId),
    SelectFixtureGroupControl(FixtureGroupId),
}

/// The selection change a meta button asks for, if it asks for one: shift is
/// held from its enable button to its disable button, and the scene and group
/// buttons select. Tapping the tempo and setting the clock rate select nothing.
pub open spec fn selection_event_spec<R>(action: MetaButtonAction<R>) -> Option<SelectionEvent> {
    match action {
        MetaButtonAction::EnableShiftMode => Some(SelectionEvent::UpdateControlMode(ControlMode::Shift)),
        MetaButtonAction::DisableShiftMode => Some(SelectionEvent::UpdateControlMode(ControlMode::Normal)),
        MetaButtonAction::TapTempo => None,
        MetaButtonAction::UpdateClockRate(_) => None,
        MetaButtonAction::SelectScene(scene_id) => Some(SelectionEvent::SelectScene(scene_id)),
        MetaButtonAction::SelectFixtureGroupControl(group_id) => Some(SelectionEvent::SelectFixtureGroupControl(group_id)),
    }
}

impl<R> MetaButtonAction<R> {
    pub fn selection_event(&self) -> (e: Option<SelectionEvent>)
        ensures
            e == selection_event_spec(*self),
    {
        match self {
            MetaButtonAction::EnableShiftMode => Some(SelectionEvent::UpdateControlMode(ControlMode::Shift)),
            MetaButtonAction::DisableShiftMode => Some(SelectionEvent::UpdateControlMode(ControlMode::Normal)),
            MetaButtonAction::TapTempo => None,
            MetaButtonAction::UpdateClockRate(_) => None,
            MetaButtonAction::SelectScene(scene_id) => Some(SelectionEvent::SelectScene(*scene_id)),
            MetaButtonAction::SelectFixtureGroupControl(group_id) => Some(SelectionEvent::SelectFixtureGroupControl(*group_id)),
        }
    }
}

} // verus!
